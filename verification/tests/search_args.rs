use opendev::json::Json;
use opendev::parse::parse;
use opendev::search_args::{OutputMode, SearchArgs, SearchType};

fn search(text: &str) -> Result<SearchArgs, String> {
    match parse(text).unwrap() {
        Json::Object(args) => SearchArgs::from_map(&args),
        _ => panic!("arguments are an object"),
    }
}

#[test]
fn pattern_alone_takes_the_defaults() {
    let args = search(r#"{"pattern": "x"}"#).unwrap();
    assert_eq!(args.pattern, "x");
    assert_eq!(args.path, None);
    assert_eq!(args.glob, None);
    assert_eq!(args.file_type, None);
    assert!(!args.case_insensitive);
    assert!(!args.multiline);
    assert!(!args.fixed_string);
    assert_eq!(args.output_mode, OutputMode::Content);
    assert_eq!(args.context, None);
    assert_eq!(args.after_context, None);
    assert_eq!(args.before_context, None);
    assert!(args.line_numbers);
    assert_eq!(args.head_limit, 0);
    assert_eq!(args.offset, 0);
    assert_eq!(args.search_type, SearchType::Text);
    assert_eq!(args.lang, None);
}

#[test]
fn all_arguments_are_read() {
    let args = search(
        r#"{
            "pattern": "x", "path": "src", "include": "*.rs", "file_type": "rust",
            "-i": true, "multiline": true, "fixed_string": true, "-n": false,
            "output_mode": "count", "search_type": "ast", "lang": "rust",
            "-C": 2, "-A": 3, "-B": 4, "head_limit": 5, "offset": 6
        }"#,
    )
    .unwrap();
    assert_eq!(args.path.as_deref(), Some("src"));
    assert_eq!(args.glob.as_deref(), Some("*.rs"));
    assert_eq!(args.file_type.as_deref(), Some("rust"));
    assert!(args.case_insensitive && args.multiline && args.fixed_string);
    assert!(!args.line_numbers);
    assert_eq!(args.output_mode, OutputMode::Count);
    assert_eq!(args.search_type, SearchType::Ast);
    assert_eq!(args.lang.as_deref(), Some("rust"));
    assert_eq!(args.context, Some(2));
    assert_eq!(args.after_context, Some(3));
    assert_eq!(args.before_context, Some(4));
    assert_eq!(args.head_limit, 5);
    assert_eq!(args.offset, 6);
}

#[test]
fn first_name_of_an_argument_counts() {
    let args = search(
        r#"{"pattern": "x", "glob": "a", "include": "b", "type": 1, "file_type": "rust",
            "context": 4294967297, "-C": 2, "output_mode": "files_with_matches"}"#,
    )
    .unwrap();
    assert_eq!(args.glob.as_deref(), Some("a"));
    assert_eq!(args.file_type, None);
    assert_eq!(args.context, Some(1));
    assert_eq!(args.output_mode, OutputMode::FilesWithMatches);
}

#[test]
fn wrong_arguments_are_refused() {
    assert_eq!(search("{}").err().unwrap(), "pattern is required");
    assert_eq!(
        search(r#"{"pattern": 1}"#).err().unwrap(),
        "pattern is required"
    );
    assert_eq!(
        search(r#"{"pattern": "x", "output_mode": "lines", "search_type": "?"}"#)
            .err()
            .unwrap(),
        "Invalid output_mode 'lines'. Use 'content', 'files_with_matches', or 'count'"
    );
    assert_eq!(
        search(r#"{"pattern": "x", "search_type": "?"}"#).err().unwrap(),
        "Invalid search_type '?'. Use 'text' or 'ast'"
    );
}
