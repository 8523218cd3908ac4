//! Arguments of the file search tool.

use crate::json;
use crate::json::{low_u32, Json, JsonNumber, JsonView};
use crate::strmap::StrMap;
use crate::text;
use crate::text::{concat3, str_eq};
use vstd::prelude::*;

verus! {

/// How a search looks at files.
#[derive(Debug, Clone, Copy, PartialEq, Eq, Structural)]
pub enum SearchType {
    /// By regular expressions.
    Text,
    /// By syntax trees.
    Ast,
}

/// What a search reports.
#[derive(Debug, Clone, Copy, PartialEq, Eq, Structural)]
pub enum OutputMode {
    /// The matching lines.
    Content,
    /// The files that match.
    FilesWithMatches,
    /// The number of matches.
    Count,
}

/// Errors of running the search program.
#[derive(Debug)]
pub enum RgError {
    /// The program is not installed.
    NotInstalled,
    /// The program took too long.
    Timeout,
    /// Anything else.
    Other(String),
}

/// The arguments of a search.
#[derive(Debug)]
pub struct SearchArgs {
    pub pattern: String,
    pub path: Option<String>,
    pub glob: Option<String>,
    pub file_type: Option<String>,
    pub case_insensitive: bool,
    pub multiline: bool,
    pub fixed_string: bool,
    pub output_mode: OutputMode,
    pub context: Option<u32>,
    pub after_context: Option<u32>,
    pub before_context: Option<u32>,
    pub line_numbers: bool,
    pub head_limit: usize,
    pub offset: usize,
    /// How the files are looked at.
    pub search_type: SearchType,
    /// The language for a search by syntax trees, where it is given.
    pub lang: Option<String>,
}

/// The arguments of a search, with texts as sequences of characters.
pub struct SearchArgsView {
    pub pattern: Seq<char>,
    pub path: Option<Seq<char>>,
    pub glob: Option<Seq<char>>,
    pub file_type: Option<Seq<char>>,
    pub case_insensitive: bool,
    pub multiline: bool,
    pub fixed_string: bool,
    pub output_mode: OutputMode,
    pub context: Option<u32>,
    pub after_context: Option<u32>,
    pub before_context: Option<u32>,
    pub line_numbers: bool,
    pub head_limit: usize,
    pub offset: usize,
    pub search_type: SearchType,
    pub lang: Option<Seq<char>>,
}

impl View for SearchArgs {
    type V = SearchArgsView;

    open spec fn view(&self) -> SearchArgsView {
        SearchArgsView {
            pattern: self.pattern@,
            path: text::string_chars(self.path),
            glob: text::string_chars(self.glob),
            file_type: text::string_chars(self.file_type),
            case_insensitive: self.case_insensitive,
            multiline: self.multiline,
            fixed_string: self.fixed_string,
            output_mode: self.output_mode,
            context: self.context,
            after_context: self.after_context,
            before_context: self.before_context,
            line_numbers: self.line_numbers,
            head_limit: self.head_limit,
            offset: self.offset,
            search_type: self.search_type,
            lang: text::string_chars(self.lang),
        }
    }
}

/// The argument under a key.
pub open spec fn argument(args: Map<Seq<char>, JsonView>, key: Seq<char>) -> Option<JsonView> {
    JsonView::Object(args).get(key)
}

/// The argument under a key, or else the one under another key.
///
/// An argument of the wrong kind under the first key hides the one under the second key.
pub open spec fn argument_or(
    args: Map<Seq<char>, JsonView>,
    key: Seq<char>,
    other: Seq<char>,
) -> Option<JsonView> {
    match argument(args, key) {
        Some(value) => Some(value),
        None => argument(args, other),
    }
}

/// The text of an argument.
pub open spec fn text_of(value: Option<JsonView>) -> Option<Seq<char>> {
    match value {
        Some(v) => v.text(),
        None => None,
    }
}

/// The truth value of an argument.
pub open spec fn flag_of(value: Option<JsonView>, otherwise: bool) -> bool {
    match value {
        Some(v) => match v.boolean() {
            Some(b) => b,
            None => otherwise,
        },
        None => otherwise,
    }
}

/// The number of an argument.
pub open spec fn number_of(value: Option<JsonView>) -> Option<u64> {
    match value {
        Some(v) => v.unsigned(),
        None => None,
    }
}

/// The low 32 bits of the number of an argument.
pub open spec fn short_number_of(value: Option<JsonView>) -> Option<u32> {
    match number_of(value) {
        Some(n) => Some(json::low_bits(n)),
        None => None,
    }
}

/// The number of an argument as a size, 0 where there is none.
pub open spec fn size_of(value: Option<JsonView>) -> usize {
    match number_of(value) {
        Some(n) => n as usize,
        None => 0,
    }
}

/// The output mode that a text names; the lines where there is no text.
pub open spec fn output_mode_of(name: Option<Seq<char>>) -> Option<OutputMode> {
    match name {
        None => Some(OutputMode::Content),
        Some(s) => if s == "files_with_matches"@ {
            Some(OutputMode::FilesWithMatches)
        } else if s == "count"@ {
            Some(OutputMode::Count)
        } else if s == "content"@ {
            Some(OutputMode::Content)
        } else {
            None
        },
    }
}

/// The search type that a text names; regular expressions where there is no text.
pub open spec fn search_type_of(name: Option<Seq<char>>) -> Option<SearchType> {
    match name {
        None => Some(SearchType::Text),
        Some(s) => if s == "ast"@ {
            Some(SearchType::Ast)
        } else if s == "text"@ {
            Some(SearchType::Text)
        } else {
            None
        },
    }
}

/// What arguments mean: a search, or what is wrong with them.
pub open spec fn search_of(args: Map<Seq<char>, JsonView>) -> Result<SearchArgsView, Seq<char>> {
    let mode_name = text_of(argument(args, "output_mode"@));
    let kind_name = text_of(argument(args, "search_type"@));
    match (
        text_of(argument(args, "pattern"@)),
        output_mode_of(mode_name),
        search_type_of(kind_name),
    ) {
        (None, _, _) => Err("pattern is required"@),
        (Some(_), None, _) => Err(
            "Invalid output_mode '"@ + mode_name->Some_0
                + "'. Use 'content', 'files_with_matches', or 'count'"@,
        ),
        (Some(_), Some(_), None) => Err(
            "Invalid search_type '"@ + kind_name->Some_0 + "'. Use 'text' or 'ast'"@,
        ),
        (Some(pattern), Some(output_mode), Some(search_type)) => Ok(
            SearchArgsView {
                pattern,
                path: text_of(argument(args, "path"@)),
                glob: text_of(argument_or(args, "glob"@, "include"@)),
                file_type: text_of(argument_or(args, "type"@, "file_type"@)),
                case_insensitive: flag_of(argument(args, "-i"@), false),
                multiline: flag_of(argument(args, "multiline"@), false),
                fixed_string: flag_of(argument(args, "fixed_string"@), false),
                output_mode,
                context: short_number_of(argument_or(args, "context"@, "-C"@)),
                after_context: short_number_of(argument(args, "-A"@)),
                before_context: short_number_of(argument(args, "-B"@)),
                line_numbers: flag_of(argument(args, "-n"@), true),
                head_limit: size_of(argument(args, "head_limit"@)),
                offset: size_of(argument(args, "offset"@)),
                search_type,
                lang: text_of(argument(args, "lang"@)),
            },
        ),
    }
}

proof fn lemma_names_differ()
    ensures
        "files_with_matches"@ != "count"@,
        "files_with_matches"@ != "content"@,
        "count"@ != "content"@,
        "ast"@ != "text"@,
{
    reveal_strlit("files_with_matches");
    reveal_strlit("count");
    reveal_strlit("content");
    reveal_strlit("ast");
    reveal_strlit("text");
    assert("files_with_matches"@.len() == 18);
    assert("count"@.len() == 5);
    assert("content"@.len() == 7);
    assert("ast"@.len() == 3);
    assert("text"@.len() == 4);
}

/// Every field of a search is what the argument under its own name says.
pub proof fn law_search_holds_its_arguments(args: Map<Seq<char>, JsonView>)
    ensures
        ({
            let given = JsonView::Object(args);
            search_of(args) matches Ok(search) ==> {
                &&& given.get_text("pattern"@) == Some(search.pattern)
                &&& given.get_text("path"@) == search.path
                &&& given.get("glob"@) is Some ==> search.glob == given.get_text("glob"@)
                &&& given.get("glob"@) is None ==> search.glob == given.get_text("include"@)
                &&& given.get("type"@) is Some ==> search.file_type == given.get_text("type"@)
                &&& given.get("type"@) is None ==> search.file_type == given.get_text("file_type"@)
                &&& search.case_insensitive <==> given.get("-i"@) == Some(JsonView::Bool(true))
                &&& search.multiline <==> given.get("multiline"@) == Some(JsonView::Bool(true))
                &&& search.fixed_string <==> given.get("fixed_string"@) == Some(JsonView::Bool(true))
                &&& !search.line_numbers <==> given.get("-n"@) == Some(JsonView::Bool(false))
                &&& given.get("context"@) is Some || given.get("-C"@) is Some ==> match (
                    if given.get("context"@) is Some {
                        given.get("context"@)->Some_0
                    } else {
                        given.get("-C"@)->Some_0
                    }
                ) {
                    JsonView::Number(JsonNumber::PosInt(n)) => search.context matches Some(low)
                        && low as int == n as int % 0x1_0000_0000,
                    _ => search.context is None,
                }
                &&& given.get("context"@) is None && given.get("-C"@) is None
                    ==> search.context is None
                &&& match given.get("-A"@) {
                    Some(JsonView::Number(JsonNumber::PosInt(n))) => search.after_context matches Some(low)
                        && low as int == n as int % 0x1_0000_0000,
                    _ => search.after_context is None,
                }
                &&& match given.get("-B"@) {
                    Some(JsonView::Number(JsonNumber::PosInt(n))) => search.before_context matches Some(low)
                        && low as int == n as int % 0x1_0000_0000,
                    _ => search.before_context is None,
                }
                &&& match given.get("head_limit"@) {
                    Some(JsonView::Number(JsonNumber::PosInt(n))) => n <= usize::MAX ==> search.head_limit
                        == n,
                    _ => search.head_limit == 0,
                }
                &&& match given.get("offset"@) {
                    Some(JsonView::Number(JsonNumber::PosInt(n))) => n <= usize::MAX ==> search.offset
                        == n,
                    _ => search.offset == 0,
                }
                &&& given.get_text("lang"@) == search.lang
            }
        }),
{
}

/// A search reports what its output mode names, and looks at files as its search type names.
pub proof fn law_search_has_the_named_modes(args: Map<Seq<char>, JsonView>)
    ensures
        ({
            let mode = JsonView::Object(args).get_text("output_mode"@);
            let kind = JsonView::Object(args).get_text("search_type"@);
            search_of(args) matches Ok(search) ==> {
                &&& mode == Some("content"@) || mode is None <==> search.output_mode
                    == OutputMode::Content
                &&& mode == Some("files_with_matches"@) <==> search.output_mode
                    == OutputMode::FilesWithMatches
                &&& mode == Some("count"@) <==> search.output_mode == OutputMode::Count
                &&& kind == Some("text"@) || kind is None <==> search.search_type
                    == SearchType::Text
                &&& kind == Some("ast"@) <==> search.search_type == SearchType::Ast
            }
        }),
{
    lemma_names_differ();
}

/// Arguments are a search exactly where they have a pattern, and name no other modes and types
/// than the known ones. Otherwise the first of the three that is wrong is named.
pub proof fn law_search_is_refused_by_name(args: Map<Seq<char>, JsonView>)
    ensures
        ({
            let pattern = JsonView::Object(args).get_text("pattern"@);
            let mode = JsonView::Object(args).get_text("output_mode"@);
            let kind = JsonView::Object(args).get_text("search_type"@);
            let mode_known = mode is None || mode == Some("content"@) || mode == Some(
                "files_with_matches"@,
            ) || mode == Some("count"@);
            let kind_known = kind is None || kind == Some("text"@) || kind == Some("ast"@);
            &&& search_of(args) is Ok <==> pattern is Some && mode_known && kind_known
            &&& pattern is None ==> search_of(args) == Err::<SearchArgsView, Seq<char>>(
                "pattern is required"@,
            )
            &&& pattern is Some && !mode_known ==> search_of(args) == Err::<
                SearchArgsView,
                Seq<char>,
            >(
                "Invalid output_mode '"@ + mode->Some_0
                    + "'. Use 'content', 'files_with_matches', or 'count'"@,
            )
            &&& pattern is Some && mode_known && !kind_known ==> search_of(args) == Err::<
                SearchArgsView,
                Seq<char>,
            >("Invalid search_type '"@ + kind->Some_0 + "'. Use 'text' or 'ast'"@)
        }),
{
}

fn member_or_else<'a>(args: &'a StrMap<Json>, key: &str, other: &str) -> (r: Option<&'a Json>)
    ensures
        json::option_view(r) == argument_or(json::object_view(*args), key@, other@),
{
    match args.member(key) {
        Some(value) => Some(value),
        None => args.member(other),
    }
}

fn slice_of(value: Option<&Json>) -> (r: Option<&str>)
    ensures
        json::option_chars(r) == text_of(json::option_view(value)),
{
    match value {
        Some(v) => v.as_str(),
        None => None,
    }
}

fn string_of(value: Option<&Json>) -> (r: Option<String>)
    ensures
        text::string_chars(r) == text_of(json::option_view(value)),
{
    match slice_of(value) {
        Some(s) => Some(s.to_owned()),
        None => None,
    }
}

fn bool_or(value: Option<&Json>, otherwise: bool) -> (r: bool)
    ensures
        r == flag_of(json::option_view(value), otherwise),
{
    match value {
        Some(v) => match v.as_bool() {
            Some(b) => b,
            None => otherwise,
        },
        None => otherwise,
    }
}

fn short_number(value: Option<&Json>) -> (r: Option<u32>)
    ensures
        r == short_number_of(json::option_view(value)),
{
    match value {
        Some(v) => match v.as_u64() {
            Some(n) => Some(low_u32(n)),
            None => None,
        },
        None => None,
    }
}

fn size_or_zero(value: Option<&Json>) -> (r: usize)
    ensures
        r == size_of(json::option_view(value)),
{
    match value {
        Some(v) => match v.as_u64() {
            Some(n) => n as usize,
            None => 0,
        },
        None => 0,
    }
}

impl SearchArgs {
    /// Read the arguments of a search.
    pub fn from_map(args: &StrMap<Json>) -> (r: Result<SearchArgs, String>)
        ensures
            match r {
                Ok(search) => search_of(json::object_view(*args)) == Ok::<
                    SearchArgsView,
                    Seq<char>,
                >(search@),
                Err(message) => search_of(json::object_view(*args)) == Err::<
                    SearchArgsView,
                    Seq<char>,
                >(message@),
            },
    {
        let pattern = match string_of(args.member("pattern")) {
            Some(s) => s,
            None => {
                return Err("pattern is required".to_owned());
            },
        };
        let output_mode = match slice_of(args.member("output_mode")) {
            None => OutputMode::Content,
            Some(name) => if str_eq(name, "files_with_matches") {
                OutputMode::FilesWithMatches
            } else if str_eq(name, "count") {
                OutputMode::Count
            } else if str_eq(name, "content") {
                OutputMode::Content
            } else {
                return Err(
                    concat3(
                        "Invalid output_mode '",
                        name,
                        "'. Use 'content', 'files_with_matches', or 'count'",
                    ),
                );
            },
        };
        let line_numbers = bool_or(args.member("-n"), true);
        let search_type = match slice_of(args.member("search_type")) {
            None => SearchType::Text,
            Some(name) => if str_eq(name, "ast") {
                SearchType::Ast
            } else if str_eq(name, "text") {
                SearchType::Text
            } else {
                return Err(concat3("Invalid search_type '", name, "'. Use 'text' or 'ast'"));
            },
        };
        let lang = string_of(args.member("lang"));
        Ok(
            SearchArgs {
                pattern,
                path: string_of(args.member("path")),
                glob: string_of(member_or_else(args, "glob", "include")),
                file_type: string_of(member_or_else(args, "type", "file_type")),
                case_insensitive: bool_or(args.member("-i"), false),
                multiline: bool_or(args.member("multiline"), false),
                fixed_string: bool_or(args.member("fixed_string"), false),
                output_mode,
                context: short_number(member_or_else(args, "context", "-C")),
                after_context: short_number(args.member("-A")),
                before_context: short_number(args.member("-B")),
                line_numbers,
                head_limit: size_or_zero(args.member("head_limit")),
                offset: size_or_zero(args.member("offset")),
                search_type,
                lang,
            },
        )
    }
}

/// What a search says is what its fields hold.
pub proof fn law_search_says_its_fields(search: SearchArgs)
    ensures
        search@.pattern == search.pattern@,
        search@.path == text::string_chars(search.path),
        search@.glob == text::string_chars(search.glob),
        search@.file_type == text::string_chars(search.file_type),
        search@.case_insensitive == search.case_insensitive,
        search@.multiline == search.multiline,
        search@.fixed_string == search.fixed_string,
        search@.output_mode == search.output_mode,
        search@.context == search.context,
        search@.after_context == search.after_context,
        search@.before_context == search.before_context,
        search@.line_numbers == search.line_numbers,
        search@.head_limit == search.head_limit,
        search@.offset == search.offset,
        search@.search_type == search.search_type,
        search@.lang == text::string_chars(search.lang),
{
}

} // verus!
