use opendev::json::Json;
use opendev::spinner::{
    ActiveTool, Color, CompletedTool, ConversationWidget, Line, NestedTool, SpinnerGlyphs,
    SubagentDisplayState, TaskProgress,
};
use opendev::strmap::StrMap;

fn glyphs() -> SpinnerGlyphs {
    SpinnerGlyphs {
        frames: vec!["0".to_string(), "1".to_string(), "2".to_string()],
        compaction: "*".to_string(),
        completed: "+".to_string(),
        continuation: "|".to_string(),
    }
}

fn tool(name: &str, tick_count: usize) -> ActiveTool {
    ActiveTool {
        name: name.to_string(),
        args: StrMap::new(),
        verb: "Read".to_string(),
        arg: "a.rs".to_string(),
        tick_count,
        elapsed_secs: 12,
        finished: false,
    }
}

fn spawn(task: &str) -> ActiveTool {
    let mut tool = tool("spawn_subagent", 4);
    tool.args.insert("task", Json::text(task));
    tool
}

fn completed(verb: &str, success: bool) -> CompletedTool {
    CompletedTool {
        verb: verb.to_string(),
        arg: "x".to_string(),
        success,
    }
}

fn subagent(task: &str) -> SubagentDisplayState {
    SubagentDisplayState {
        name: "Explorer".to_string(),
        task: task.to_string(),
        finished: false,
        tool_call_count: 0,
        active_tools: Vec::new(),
        completed_tools: Vec::new(),
    }
}

fn lines_of(tools: &Vec<ActiveTool>, subagents: &Vec<SubagentDisplayState>) -> Vec<Line> {
    let glyphs = glyphs();
    let widget = ConversationWidget {
        active_tools: tools,
        active_subagents: subagents,
        compaction_active: false,
        task_progress: None,
        spinner_char: "s",
        glyphs: &glyphs,
    };
    assert!(widget.can_build());
    widget.build_spinner_lines()
}

fn text(line: &Line) -> String {
    line.spans.iter().map(|s| s.text.as_str()).collect()
}

fn texts(lines: &[Line]) -> Vec<String> {
    lines.iter().map(text).collect()
}

#[test]
fn compaction_hides_everything_else() {
    let glyphs = glyphs();
    let tools = vec![tool("read", 0)];
    let widget = ConversationWidget {
        active_tools: &tools,
        active_subagents: &Vec::new(),
        compaction_active: true,
        task_progress: None,
        spinner_char: "s",
        glyphs: &glyphs,
    };
    let lines = widget.build_spinner_lines();
    assert_eq!(texts(&lines), vec!["* Compacting conversation\u{2026}"]);
    assert_eq!(lines[0].spans[0].style.fg, Color::BlueBright);
    assert!(lines[0].spans[0].style.bold);
    assert!(lines[0].spans[1].style.italic);
}

#[test]
fn running_tools_are_shown_with_their_frame() {
    let mut done = tool("read", 0);
    done.finished = true;
    let lines = lines_of(&vec![tool("read", 4), done, tool("read", 2)], &Vec::new());
    assert_eq!(
        texts(&lines),
        vec!["1 Read(a.rs) (12s)", "2 Read(a.rs) (12s)"]
    );
    assert_eq!(lines[0].spans[1].style.fg, Color::Primary);
    assert!(lines[0].spans[1].style.bold);
    assert_eq!(lines[0].spans[3].style.fg, Color::Grey);
}

#[test]
fn task_progress_is_shown_without_tools() {
    let glyphs = glyphs();
    let progress = TaskProgress {
        description: "Thinking".to_string(),
        elapsed_secs: 3,
    };
    let widget = ConversationWidget {
        active_tools: &Vec::new(),
        active_subagents: &Vec::new(),
        compaction_active: false,
        task_progress: Some(&progress),
        spinner_char: "s",
        glyphs: &glyphs,
    };
    assert_eq!(
        texts(&widget.build_spinner_lines()),
        vec!["s Thinking... (3s \u{b7} esc to interrupt)"]
    );
    let idle = ConversationWidget {
        task_progress: None,
        ..widget
    };
    assert!(idle.build_spinner_lines().is_empty());
}

#[test]
fn unknown_subagent_has_a_header_only() {
    let mut tool = spawn("look");
    assert_eq!(
        texts(&lines_of(&vec![tool], &Vec::new())),
        vec!["1 Agent(look)"]
    );
    tool = spawn("look");
    tool.args.insert("agent_type", Json::text("Planner"));
    assert_eq!(
        texts(&lines_of(&vec![tool], &vec![subagent("other")])),
        vec!["1 Planner(look)"]
    );
}

#[test]
fn long_tasks_are_cut() {
    let task = "t".repeat(61);
    let lines = lines_of(&vec![spawn(&task)], &Vec::new());
    assert_eq!(text(&lines[0]), format!("1 Agent({}...)", "t".repeat(60)));
    let whole = "t".repeat(60);
    let lines = lines_of(&vec![spawn(&whole)], &Vec::new());
    assert_eq!(text(&lines[0]), format!("1 Agent({})", whole));
}

#[test]
fn tasks_are_cut_between_characters_only() {
    let glyphs = glyphs();
    let tools = vec![spawn(&format!("{}\u{fc}", "t".repeat(59)))];
    let widget = ConversationWidget {
        active_tools: &tools,
        active_subagents: &Vec::new(),
        compaction_active: false,
        task_progress: None,
        spinner_char: "s",
        glyphs: &glyphs,
    };
    assert!(!widget.can_build());
}

#[test]
fn single_subagent_shows_its_last_tools() {
    let mut sa = subagent("look");
    for (verb, success) in [("A", true), ("B", true), ("C", false), ("D", true), ("E", true)] {
        sa.completed_tools.push(completed(verb, success));
    }
    sa.active_tools.push(NestedTool {
        verb: "F".to_string(),
        arg: "y".to_string(),
        tick: 5,
    });
    let lines = lines_of(&vec![spawn("look")], &vec![sa]);
    assert_eq!(
        texts(&lines),
        vec![
            "1 Explorer(look)",
            "  |  \u{2717} C(x)",
            "  |  + D(x)",
            "  |  + E(x)",
            "  |  2 F(y)",
            "      +2 more tool uses",
        ]
    );
    assert_eq!(lines[1].spans[1].style.fg, Color::Error);
    assert_eq!(lines[2].spans[1].style.fg, Color::GreenBright);
}

#[test]
fn new_subagent_is_initializing() {
    let lines = lines_of(&vec![spawn("look")], &vec![subagent("look")]);
    assert_eq!(
        texts(&lines),
        vec!["1 Explorer(look)", "  |  Initializing\u{2026}"]
    );
}

#[test]
fn finished_subagent_is_done() {
    let mut sa = subagent("look");
    sa.finished = true;
    sa.tool_call_count = 7;
    let lines = lines_of(&vec![spawn("look")], &vec![sa]);
    assert_eq!(
        texts(&lines),
        vec!["1 Explorer(look)", "  |  + Done (7 tool uses)"]
    );
}

#[test]
fn parallel_subagents_have_one_line_each() {
    let mut running = subagent("a");
    running.active_tools.push(NestedTool {
        verb: "F".to_string(),
        arg: "y".to_string(),
        tick: 0,
    });
    running.completed_tools.push(completed("A", true));
    let mut resting = subagent("b");
    resting.completed_tools.push(completed("A", true));
    resting.completed_tools.push(completed("B", false));
    let mut done = subagent("c");
    done.finished = true;
    let lines = lines_of(
        &vec![spawn("a"), spawn("b"), spawn("c"), spawn("d")],
        &vec![running, resting, done, subagent("d")],
    );
    assert_eq!(
        texts(&lines),
        vec![
            "1 Explorer(a)",
            "  |  0 F(y) +1 more",
            "1 Explorer(b)",
            "  |  \u{2717} B(x) +1 more",
            "1 Explorer(c)",
            "  |  + Done",
            "1 Explorer(d)",
            "  |  Initializing\u{2026}",
        ]
    );
}
