//! Spinner and progress lines for running tools and subagents.
//!
//! The lines are built from plain data: styled spans of text. What a tool call looks like in
//! words, how long a task has been running and which glyphs the terminal shows is given.

use crate::json;
use crate::json::{Json, JsonView};
use crate::strmap::StrMap;
use crate::text;
use crate::text::{concat2, concat3, number_text, str_eq};
use vstd::prelude::*;
use vstd::string::*;

verus! {

// ---------------------------------------------------------------------------
// Styled text
// ---------------------------------------------------------------------------

/// The colors of the interface, by their purpose.
#[derive(Debug, Clone, Copy, PartialEq, Eq, Structural)]
pub enum Color {
    BlueBright,
    Subtle,
    Primary,
    Grey,
    GreenBright,
    Error,
}

/// How a span of text looks.
#[derive(Debug, Clone, Copy, PartialEq, Eq, Structural)]
pub struct Style {
    pub fg: Color,
    pub bold: bool,
    pub italic: bool,
}

/// A style with a color and nothing else.
pub open spec fn plain_style(fg: Color) -> Style {
    Style { fg, bold: false, italic: false }
}

/// A style with a color, in bold.
pub open spec fn bold_style(fg: Color) -> Style {
    Style { fg, bold: true, italic: false }
}

/// A style with a color, in italics.
pub open spec fn italic_style(fg: Color) -> Style {
    Style { fg, bold: false, italic: true }
}

/// A style with a color and nothing else.
pub fn plain(fg: Color) -> (r: Style)
    ensures
        r == plain_style(fg),
{
    Style { fg, bold: false, italic: false }
}

/// A style with a color, in bold.
pub fn bold(fg: Color) -> (r: Style)
    ensures
        r == bold_style(fg),
{
    Style { fg, bold: true, italic: false }
}

/// A style with a color, in italics.
pub fn italic(fg: Color) -> (r: Style)
    ensures
        r == italic_style(fg),
{
    Style { fg, bold: false, italic: true }
}

/// A piece of text in one style.
#[derive(Debug)]
pub struct Span {
    pub text: String,
    pub style: Style,
}

/// A piece of text in one style.
pub struct SpanView {
    pub text: Seq<char>,
    pub style: Style,
}

impl View for Span {
    type V = SpanView;

    open spec fn view(&self) -> SpanView {
        SpanView { text: self.text@, style: self.style }
    }
}

/// A line of text.
#[derive(Debug)]
pub struct Line {
    pub spans: Vec<Span>,
}

impl View for Line {
    type V = Seq<SpanView>;

    open spec fn view(&self) -> Seq<SpanView> {
        self.spans@.map_values(|s: Span| s@)
    }
}

/// The spans of a list of lines.
pub open spec fn lines_view(lines: Seq<Line>) -> Seq<Seq<SpanView>> {
    lines.map_values(|l: Line| l@)
}

/// A span.
pub open spec fn styled(text: Seq<char>, style: Style) -> SpanView {
    SpanView { text, style }
}

impl Line {
    /// A line without text.
    pub fn new() -> (r: Line)
        ensures
            r@ == Seq::<SpanView>::empty(),
    {
        let r = Line { spans: Vec::new() };
        proof {
            assert(r@ =~= Seq::<SpanView>::empty());
        }
        r
    }

    /// The line with a span at its end.
    pub fn with(self, text: String, style: Style) -> (r: Line)
        ensures
            r@ == self@.push(styled(text@, style)),
    {
        let mut spans = self.spans;
        let ghost before = spans@;
        spans.push(Span { text, style });
        let r = Line { spans };
        proof {
            assert(r@ =~= self@.push(styled(text@, style)));
        }
        r
    }
}

fn push_line(lines: &mut Vec<Line>, line: Line)
    ensures
        lines_view(final(lines)@) == lines_view(old(lines)@).push(line@),
{
    lines.push(line);
    proof {
        assert(lines_view(lines@) =~= lines_view(old(lines)@).push(line@));
    }
}

// ---------------------------------------------------------------------------
// What is shown
// ---------------------------------------------------------------------------

/// The glyphs of the terminal.
#[derive(Debug)]
pub struct SpinnerGlyphs {
    /// The frames of the spinner; there is at least one.
    pub frames: Vec<String>,
    /// The mark of a compaction.
    pub compaction: String,
    /// The mark of a completed tool.
    pub completed: String,
    /// The mark of a nested line.
    pub continuation: String,
}

/// A tool that is running.
#[derive(Debug)]
pub struct ActiveTool {
    pub name: String,
    pub args: StrMap<Json>,
    /// What the tool does, in a word.
    pub verb: String,
    /// What the tool does it to.
    pub arg: String,
    pub tick_count: usize,
    pub elapsed_secs: u64,
    pub finished: bool,
}

/// A tool that a subagent is running.
#[derive(Debug)]
pub struct NestedTool {
    pub verb: String,
    pub arg: String,
    pub tick: usize,
}

/// A tool that a subagent has run.
#[derive(Debug)]
pub struct CompletedTool {
    pub verb: String,
    pub arg: String,
    pub success: bool,
}

/// A subagent.
#[derive(Debug)]
pub struct SubagentDisplayState {
    pub name: String,
    pub task: String,
    pub finished: bool,
    pub tool_call_count: usize,
    pub active_tools: Vec<NestedTool>,
    pub completed_tools: Vec<CompletedTool>,
}

/// The progress of a task.
#[derive(Debug)]
pub struct TaskProgress {
    pub description: String,
    pub elapsed_secs: u64,
}

/// The part of the conversation that shows what is going on.
#[derive(Debug)]
pub struct ConversationWidget<'a> {
    pub active_tools: &'a Vec<ActiveTool>,
    pub active_subagents: &'a Vec<SubagentDisplayState>,
    pub compaction_active: bool,
    pub task_progress: Option<&'a TaskProgress>,
    pub spinner_char: &'a str,
    pub glyphs: &'a SpinnerGlyphs,
}

// ---------------------------------------------------------------------------
// The lines
// ---------------------------------------------------------------------------

/// The longest task, in bytes, that is shown whole.
pub const TASK_LIMIT: usize = 60;

/// How many completed tools of a subagent are shown.
pub const COMPLETED_SHOWN: usize = 3;

/// The frame of the spinner at a tick.
pub open spec fn frame(glyphs: SpinnerGlyphs, tick: usize) -> Seq<char> {
    glyphs.frames@[tick as int % glyphs.frames@.len() as int]@
}

/// A text in round brackets.
pub open spec fn bracketed(content: Seq<char>) -> Seq<char> {
    "("@ + content + ")"@
}

/// The span in front of a nested line.
pub open spec fn nesting(glyphs: SpinnerGlyphs) -> SpanView {
    styled("  "@ + glyphs.continuation@ + "  "@, plain_style(Color::Grey))
}

/// The line during a compaction.
pub open spec fn compaction_line(glyphs: SpinnerGlyphs) -> Seq<SpanView> {
    seq![
        styled(glyphs.compaction@ + " "@, bold_style(Color::BlueBright)),
        styled("Compacting conversation\u{2026}"@, italic_style(Color::Subtle)),
    ]
}

/// The line of a tool.
pub open spec fn tool_line(glyphs: SpinnerGlyphs, tool: ActiveTool) -> Seq<SpanView> {
    seq![
        styled(frame(glyphs, tool.tick_count) + " "@, plain_style(Color::BlueBright)),
        styled(tool.verb@, bold_style(Color::Primary)),
        styled(bracketed(tool.arg@), plain_style(Color::Subtle)),
        styled(
            " ("@ + text::decimal(tool.elapsed_secs as nat) + "s)"@,
            plain_style(Color::Grey),
        ),
    ]
}

/// The line of a task.
pub open spec fn progress_line(spinner: Seq<char>, progress: TaskProgress) -> Seq<SpanView> {
    seq![
        styled(spinner + " "@, plain_style(Color::BlueBright)),
        styled(progress.description@ + "... "@, plain_style(Color::Subtle)),
        styled(
            "("@ + text::decimal(progress.elapsed_secs as nat) + "s \u{b7} esc to interrupt)"@,
            plain_style(Color::Subtle),
        ),
    ]
}

/// Whether a tool starts a subagent.
pub open spec fn spawns(tool: ActiveTool) -> bool {
    tool.name@ == "spawn_subagent"@
}

/// The text of an argument of a tool.
pub open spec fn tool_text(tool: ActiveTool, key: Seq<char>, otherwise: Seq<char>) -> Seq<char> {
    match JsonView::Object(json::object_view(tool.args)).get_text(key) {
        Some(s) => s,
        None => otherwise,
    }
}

/// The task that a tool hands to its subagent.
pub open spec fn task_of(tool: ActiveTool) -> Seq<char> {
    tool_text(tool, "task"@, ""@)
}

/// The first subagent with a task.
pub open spec fn subagent_for(
    subagents: Seq<SubagentDisplayState>,
    task: Seq<char>,
) -> Option<SubagentDisplayState>
    decreases subagents.len(),
{
    if subagents.len() == 0 {
        None
    } else if subagents[0].task@ == task {
        Some(subagents[0])
    } else {
        subagent_for(subagents.drop_first(), task)
    }
}

/// The name under which a subagent is shown.
pub open spec fn agent_name(tool: ActiveTool, subagent: Option<SubagentDisplayState>) -> Seq<char> {
    match subagent {
        Some(sa) => sa.name@,
        None => tool_text(tool, "agent_type"@, "Agent"@),
    }
}

/// Whether a task can be cut: it is short enough, or a character ends where it is cut.
pub open spec fn cuttable(task: Seq<char>) -> bool {
    let bytes = vstd::utf8::encode_utf8(task);
    bytes.len() <= TASK_LIMIT || vstd::utf8::is_char_boundary(bytes, TASK_LIMIT as int)
}

/// A task as it is shown: whole where it is short enough, else its first bytes.
pub open spec fn short_task(task: Seq<char>) -> Seq<char> {
    let bytes = vstd::utf8::encode_utf8(task);
    if bytes.len() > TASK_LIMIT {
        vstd::utf8::decode_utf8(bytes.subrange(0, TASK_LIMIT as int)) + "..."@
    } else {
        task
    }
}

/// The header of a subagent.
pub open spec fn header_line(
    glyphs: SpinnerGlyphs,
    tool: ActiveTool,
    subagent: Option<SubagentDisplayState>,
) -> Seq<SpanView> {
    seq![
        styled(frame(glyphs, tool.tick_count) + " "@, plain_style(Color::BlueBright)),
        styled(agent_name(tool, subagent), bold_style(Color::Primary)),
        styled(bracketed(short_task(task_of(tool))), plain_style(Color::Subtle)),
    ]
}

/// The number of tool uses, where there are any.
pub open spec fn uses_text(count: usize) -> Seq<char> {
    if count > 0 {
        " ("@ + text::decimal(count as nat) + " tool uses)"@
    } else {
        Seq::empty()
    }
}

/// The line of a subagent that has finished.
pub open spec fn done_line(glyphs: SpinnerGlyphs, count: usize) -> Seq<SpanView> {
    seq![
        nesting(glyphs),
        styled(glyphs.completed@ + " "@, plain_style(Color::GreenBright)),
        styled("Done"@, plain_style(Color::Subtle)),
        styled(uses_text(count), italic_style(Color::Grey)),
    ]
}

/// The line of a subagent that has not started a tool.
pub open spec fn initializing_line(glyphs: SpinnerGlyphs) -> Seq<SpanView> {
    seq![nesting(glyphs), styled("Initializing\u{2026}"@, italic_style(Color::Subtle))]
}

/// The line of a tool that a subagent is running.
pub open spec fn nested_line(glyphs: SpinnerGlyphs, tool: NestedTool) -> Seq<SpanView> {
    seq![
        nesting(glyphs),
        styled(frame(glyphs, tool.tick) + " "@, plain_style(Color::BlueBright)),
        styled(tool.verb@, plain_style(Color::Subtle)),
        styled(bracketed(tool.arg@), plain_style(Color::Grey)),
    ]
}

/// The mark of a tool that has run.
pub open spec fn outcome(glyphs: SpinnerGlyphs, success: bool) -> SpanView {
    if success {
        styled(glyphs.completed@ + " "@, plain_style(Color::GreenBright))
    } else {
        styled("\u{2717} "@, plain_style(Color::Error))
    }
}

/// The line of a tool that a subagent has run.
pub open spec fn completed_line(glyphs: SpinnerGlyphs, tool: CompletedTool) -> Seq<SpanView> {
    seq![
        nesting(glyphs),
        outcome(glyphs, tool.success),
        styled(tool.verb@, plain_style(Color::Subtle)),
        styled(bracketed(tool.arg@), plain_style(Color::Grey)),
    ]
}

/// The number of tools that are not shown, where there are any.
pub open spec fn more_text(count: nat) -> Seq<char> {
    if count > 0 {
        " +"@ + text::decimal(count) + " more"@
    } else {
        Seq::empty()
    }
}

/// The line of one of several subagents.
pub open spec fn parallel_line(glyphs: SpinnerGlyphs, sa: SubagentDisplayState) -> Seq<SpanView> {
    if sa.finished {
        done_line(glyphs, sa.tool_call_count)
    } else if sa.active_tools@.len() > 0 {
        nested_line(glyphs, sa.active_tools@[0]).push(
            styled(more_text(sa.completed_tools@.len()), italic_style(Color::Grey)),
        )
    } else if sa.completed_tools@.len() > 0 {
        completed_line(glyphs, sa.completed_tools@.last()).push(
            styled(
                more_text((sa.completed_tools@.len() - 1) as nat),
                italic_style(Color::Grey),
            ),
        )
    } else {
        initializing_line(glyphs)
    }
}

/// How many completed tools of a subagent are not shown.
pub open spec fn hidden_tools(sa: SubagentDisplayState) -> nat {
    if sa.completed_tools@.len() > COMPLETED_SHOWN {
        (sa.completed_tools@.len() - COMPLETED_SHOWN) as nat
    } else {
        0
    }
}

/// The lines of completed tools.
pub open spec fn completed_lines(glyphs: SpinnerGlyphs, tools: Seq<CompletedTool>) -> Seq<
    Seq<SpanView>,
> {
    tools.map_values(|tool: CompletedTool| completed_line(glyphs, tool))
}

/// The lines of running tools.
pub open spec fn nested_lines(glyphs: SpinnerGlyphs, tools: Seq<NestedTool>) -> Seq<
    Seq<SpanView>,
> {
    tools.map_values(|tool: NestedTool| nested_line(glyphs, tool))
}

/// The lines of a subagent that runs alone: the last completed tools, the running ones, and how
/// many completed ones are not shown.
pub open spec fn single_lines(glyphs: SpinnerGlyphs, sa: SubagentDisplayState) -> Seq<
    Seq<SpanView>,
> {
    let shown = completed_lines(glyphs, sa.completed_tools@.skip(hidden_tools(sa) as int))
        + nested_lines(glyphs, sa.active_tools@);
    let started = if sa.active_tools@.len() == 0 && sa.completed_tools@.len() == 0 {
        shown.push(initializing_line(glyphs))
    } else {
        shown
    };
    if hidden_tools(sa) > 0 {
        started.push(
            seq![
                styled(
                    "      +"@ + text::decimal(hidden_tools(sa)) + " more tool uses"@,
                    italic_style(Color::Grey),
                ),
            ],
        )
    } else {
        started
    }
}

/// The lines below the header of a subagent.
pub open spec fn subagent_lines(
    glyphs: SpinnerGlyphs,
    sa: SubagentDisplayState,
    parallel: bool,
) -> Seq<Seq<SpanView>> {
    if parallel {
        seq![parallel_line(glyphs, sa)]
    } else if sa.finished {
        seq![done_line(glyphs, sa.tool_call_count)]
    } else {
        single_lines(glyphs, sa)
    }
}

/// The lines of a running tool.
pub open spec fn tool_lines(
    glyphs: SpinnerGlyphs,
    subagents: Seq<SubagentDisplayState>,
    parallel: bool,
    tool: ActiveTool,
) -> Seq<Seq<SpanView>> {
    if spawns(tool) {
        let subagent = subagent_for(subagents, task_of(tool));
        let header = seq![header_line(glyphs, tool, subagent)];
        match subagent {
            Some(sa) => header + subagent_lines(glyphs, sa, parallel),
            None => header,
        }
    } else {
        seq![tool_line(glyphs, tool)]
    }
}

/// The tools that have not finished.
pub open spec fn unfinished(tools: Seq<ActiveTool>) -> Seq<ActiveTool> {
    tools.filter(|tool: ActiveTool| !tool.finished)
}

/// Whether more than one subagent is running.
pub open spec fn is_parallel(tools: Seq<ActiveTool>) -> bool {
    unfinished(tools).filter(|tool: ActiveTool| spawns(tool)).len() > 1
}

/// The lines of the tools that have not finished, one tool after the other.
pub open spec fn active_lines(
    glyphs: SpinnerGlyphs,
    subagents: Seq<SubagentDisplayState>,
    parallel: bool,
    tools: Seq<ActiveTool>,
) -> Seq<Seq<SpanView>>
    decreases tools.len(),
{
    if tools.len() == 0 {
        Seq::empty()
    } else {
        let front = active_lines(glyphs, subagents, parallel, tools.drop_last());
        if tools.last().finished {
            front
        } else {
            front + tool_lines(glyphs, subagents, parallel, tools.last())
        }
    }
}

impl<'a> ConversationWidget<'a> {
    /// The lines that show what is going on.
    pub open spec fn spinner_lines(&self) -> Seq<Seq<SpanView>> {
        if self.compaction_active {
            seq![compaction_line(*self.glyphs)]
        } else if unfinished(self.active_tools@).len() > 0 {
            active_lines(
                *self.glyphs,
                self.active_subagents@,
                is_parallel(self.active_tools@),
                self.active_tools@,
            )
        } else {
            match self.task_progress {
                Some(progress) => seq![progress_line(self.spinner_char@, *progress)],
                None => Seq::empty(),
            }
        }
    }

    /// Whether the lines can be built: there is a frame, and the tasks can be cut.
    pub open spec fn buildable(&self) -> bool {
        &&& self.glyphs.frames@.len() > 0
        &&& !self.compaction_active ==> forall|i: int|
            0 <= i < self.active_tools@.len() && !(#[trigger] self.active_tools@[i]).finished
                && spawns(self.active_tools@[i]) ==> cuttable(task_of(self.active_tools@[i]))
    }
}

// ---------------------------------------------------------------------------
// Building the lines
// ---------------------------------------------------------------------------

/// A text with a blank behind it.
fn spaced(content: &str) -> (r: String)
    ensures
        r@ == content@ + " "@,
{
    concat2(content, " ")
}

fn in_brackets(content: &str) -> (r: String)
    ensures
        r@ == bracketed(content@),
{
    concat3("(", content, ")")
}

/// The frame of the spinner at a tick.
fn frame_at(glyphs: &SpinnerGlyphs, tick: usize) -> (r: &str)
    requires
        glyphs.frames@.len() > 0,
    ensures
        r@ == frame(*glyphs, tick),
{
    let i: usize = tick % glyphs.frames.len();
    glyphs.frames[i].as_str()
}

/// A line that begins as a nested one does.
fn nested_start(glyphs: &SpinnerGlyphs) -> (r: Line)
    ensures
        r@ == seq![nesting(*glyphs)],
{
    Line::new().with(concat3("  ", glyphs.continuation.as_str(), "  "), plain(Color::Grey))
}

fn build_compaction_line(glyphs: &SpinnerGlyphs) -> (r: Line)
    ensures
        r@ == compaction_line(*glyphs),
{
    Line::new().with(spaced(glyphs.compaction.as_str()), bold(Color::BlueBright)).with(
        "Compacting conversation\u{2026}".to_owned(),
        italic(Color::Subtle),
    )
}

fn build_tool_line(glyphs: &SpinnerGlyphs, tool: &ActiveTool) -> (r: Line)
    requires
        glyphs.frames@.len() > 0,
    ensures
        r@ == tool_line(*glyphs, *tool),
{
    let elapsed = number_text(tool.elapsed_secs);
    Line::new().with(spaced(frame_at(glyphs, tool.tick_count)), plain(Color::BlueBright)).with(
        tool.verb.clone(),
        bold(Color::Primary),
    ).with(in_brackets(tool.arg.as_str()), plain(Color::Subtle)).with(
        concat3(" (", elapsed.as_str(), "s)"),
        plain(Color::Grey),
    )
}

fn build_progress_line(spinner: &str, progress: &TaskProgress) -> (r: Line)
    ensures
        r@ == progress_line(spinner@, *progress),
{
    let elapsed = number_text(progress.elapsed_secs);
    Line::new().with(spaced(spinner), plain(Color::BlueBright)).with(
        concat2(progress.description.as_str(), "... "),
        plain(Color::Subtle),
    ).with(
        concat3("(", elapsed.as_str(), "s \u{b7} esc to interrupt)"),
        plain(Color::Subtle),
    )
}

fn build_header_line(
    glyphs: &SpinnerGlyphs,
    tool: &ActiveTool,
    task: &str,
    subagent: Option<&SubagentDisplayState>,
) -> (r: Line)
    requires
        glyphs.frames@.len() > 0,
        task@ == task_of(*tool),
        cuttable(task@),
    ensures
        r@ == header_line(
            *glyphs,
            *tool,
            match subagent {
                Some(sa) => Some(*sa),
                None => None,
            },
        ),
{
    let name = match subagent {
        Some(sa) => sa.name.clone(),
        None => argument(tool, "agent_type", "Agent").to_owned(),
    };
    let shown = shorten(task);
    Line::new().with(spaced(frame_at(glyphs, tool.tick_count)), plain(Color::BlueBright)).with(
        name,
        bold(Color::Primary),
    ).with(in_brackets(shown.as_str()), plain(Color::Subtle))
}

fn build_done_line(glyphs: &SpinnerGlyphs, count: usize) -> (r: Line)
    ensures
        r@ == done_line(*glyphs, count),
{
    let uses = if count > 0 {
        concat3(" (", number_text(count as u64).as_str(), " tool uses)")
    } else {
        String::new()
    };
    nested_start(glyphs).with(
        spaced(glyphs.completed.as_str()),
        plain(Color::GreenBright),
    ).with("Done".to_owned(), plain(Color::Subtle)).with(uses, italic(Color::Grey))
}

fn build_initializing_line(glyphs: &SpinnerGlyphs) -> (r: Line)
    ensures
        r@ == initializing_line(*glyphs),
{
    nested_start(glyphs).with("Initializing\u{2026}".to_owned(), italic(Color::Subtle))
}

fn build_nested_line(glyphs: &SpinnerGlyphs, tool: &NestedTool) -> (r: Line)
    requires
        glyphs.frames@.len() > 0,
    ensures
        r@ == nested_line(*glyphs, *tool),
{
    nested_start(glyphs).with(
        spaced(frame_at(glyphs, tool.tick)),
        plain(Color::BlueBright),
    ).with(tool.verb.clone(), plain(Color::Subtle)).with(
        in_brackets(tool.arg.as_str()),
        plain(Color::Grey),
    )
}

fn build_completed_line(glyphs: &SpinnerGlyphs, tool: &CompletedTool) -> (r: Line)
    ensures
        r@ == completed_line(*glyphs, *tool),
{
    let start = nested_start(glyphs);
    let marked = if tool.success {
        start.with(spaced(glyphs.completed.as_str()), plain(Color::GreenBright))
    } else {
        start.with("\u{2717} ".to_owned(), plain(Color::Error))
    };
    marked.with(tool.verb.clone(), plain(Color::Subtle)).with(
        in_brackets(tool.arg.as_str()),
        plain(Color::Grey),
    )
}

fn more(count: usize) -> (r: String)
    ensures
        r@ == more_text(count as nat),
{
    if count > 0 {
        concat3(" +", number_text(count as u64).as_str(), " more")
    } else {
        String::new()
    }
}

/// A task as it is shown.
fn shorten(task: &str) -> (r: String)
    requires
        cuttable(task@),
    ensures
        r@ == short_task(task@),
{
    if task.as_bytes().len() > TASK_LIMIT {
        let (front, _) = task.split_at(TASK_LIMIT);
        proof {
            vstd::utf8::encode_utf8_decode_utf8(front@);
        }
        concat2(front, "...")
    } else {
        task.to_owned()
    }
}

/// Whether a task can be cut.
fn is_cuttable(task: &str) -> (r: bool)
    ensures
        r == cuttable(task@),
{
    task.as_bytes().len() <= TASK_LIMIT || task.is_char_boundary(TASK_LIMIT)
}

/// The text of an argument of a tool.
fn argument<'t>(tool: &'t ActiveTool, key: &str, otherwise: &'static str) -> (r: &'t str)
    ensures
        r@ == tool_text(*tool, key@, otherwise@),
{
    match tool.args.member(key) {
        Some(value) => match value.as_str() {
            Some(s) => s,
            None => otherwise,
        },
        None => otherwise,
    }
}

/// The first subagent with a task.
fn find_subagent<'t>(subagents: &'t Vec<SubagentDisplayState>, task: &str) -> (r: Option<
    &'t SubagentDisplayState,
>)
    ensures
        match r {
            Some(sa) => subagent_for(subagents@, task@) == Some(*sa),
            None => subagent_for(subagents@, task@) is None,
        },
{
    let mut i: usize = 0;
    proof {
        assert(subagents@.skip(0) =~= subagents@);
    }
    while i < subagents.len()
        invariant
            i <= subagents@.len(),
            subagent_for(subagents@, task@) == subagent_for(subagents@.skip(i as int), task@),
        decreases subagents@.len() - i,
    {
        if str_eq(subagents[i].task.as_str(), task) {
            return Some(&subagents[i]);
        }
        proof {
            assert(subagents@.skip(i as int).drop_first() =~= subagents@.skip(i + 1));
        }
        i += 1;
    }
    None
}

impl<'a> ConversationWidget<'a> {
    /// Whether the lines can be built: there is a frame, and the tasks can be cut.
    pub fn can_build(&self) -> (r: bool)
        ensures
            r == self.buildable(),
    {
        if self.glyphs.frames.len() == 0 {
            return false;
        }
        if self.compaction_active {
            return true;
        }
        let mut i: usize = 0;
        while i < self.active_tools.len()
            invariant
                i <= self.active_tools@.len(),
                !self.compaction_active,
                forall|j: int|
                    0 <= j < i && !(#[trigger] self.active_tools@[j]).finished && spawns(
                        self.active_tools@[j],
                    ) ==> cuttable(task_of(self.active_tools@[j])),
            decreases self.active_tools@.len() - i,
        {
            let tool = &self.active_tools[i];
            if !tool.finished && str_eq(tool.name.as_str(), "spawn_subagent") && !is_cuttable(
                argument(tool, "task", ""),
            ) {
                return false;
            }
            i += 1;
        }
        true
    }

    /// Whether more than one subagent is running.
    fn runs_in_parallel(&self) -> (r: bool)
        ensures
            r == is_parallel(self.active_tools@),
    {
        let ghost runs = |tool: ActiveTool| !tool.finished;
        let ghost starts = |tool: ActiveTool| spawns(tool);
        let mut count: usize = 0;
        let mut i: usize = 0;
        while i < self.active_tools.len()
            invariant
                i <= self.active_tools@.len(),
                runs == (|tool: ActiveTool| !tool.finished),
                starts == (|tool: ActiveTool| spawns(tool)),
                count <= i,
                count == self.active_tools@.take(i as int).filter(runs).filter(starts).len(),
            decreases self.active_tools@.len() - i,
        {
            let tool = &self.active_tools[i];
            proof {
                let front = self.active_tools@.take(i as int);
                assert(self.active_tools@.take(i + 1) =~= front.push(*tool));
                front.lemma_filter_push(*tool, runs);
                front.filter(runs).lemma_filter_push(*tool, starts);
            }
            if !tool.finished && str_eq(tool.name.as_str(), "spawn_subagent") {
                count += 1;
            }
            i += 1;
        }
        proof {
            assert(self.active_tools@.take(self.active_tools@.len() as int)
                =~= self.active_tools@);
        }
        count > 1
    }

    /// Whether a tool has not finished.
    fn has_unfinished(&self) -> (r: bool)
        ensures
            r == (unfinished(self.active_tools@).len() > 0),
    {
        let ghost runs = |tool: ActiveTool| !tool.finished;
        let mut i: usize = 0;
        while i < self.active_tools.len()
            invariant
                i <= self.active_tools@.len(),
                runs == (|tool: ActiveTool| !tool.finished),
                self.active_tools@.take(i as int).filter(runs).len() == 0,
            decreases self.active_tools@.len() - i,
        {
            let tool = &self.active_tools[i];
            proof {
                let front = self.active_tools@.take(i as int);
                assert(self.active_tools@.take(i + 1) =~= front.push(*tool));
                front.lemma_filter_push(*tool, runs);
            }
            if !tool.finished {
                proof {
                    self.active_tools@.lemma_filter_contains(runs, i as int);
                    assert(self.active_tools@.filter(runs).contains(*tool));
                }
                return true;
            }
            i += 1;
        }
        proof {
            assert(self.active_tools@.take(self.active_tools@.len() as int)
                =~= self.active_tools@);
        }
        false
    }

    /// Build the spinner and progress lines.
    ///
    /// During a compaction there is one line for it; else there are lines for each tool that has
    /// not finished; else there is a line for the task, where there is one.
    pub fn build_spinner_lines(&self) -> (r: Vec<Line>)
        requires
            self.buildable(),
        ensures
            lines_view(r@) == self.spinner_lines(),
    {
        let mut lines: Vec<Line> = Vec::new();
        proof {
            assert(lines_view(lines@) =~= Seq::<Seq<SpanView>>::empty());
        }
        if self.compaction_active {
            push_line(&mut lines, build_compaction_line(self.glyphs));
        } else if self.has_unfinished() {
            let parallel = self.runs_in_parallel();
            let mut i: usize = 0;
            while i < self.active_tools.len()
                invariant
                    i <= self.active_tools@.len(),
                    self.buildable(),
                    !self.compaction_active,
                    lines_view(lines@) == active_lines(
                        *self.glyphs,
                        self.active_subagents@,
                        parallel,
                        self.active_tools@.take(i as int),
                    ),
                decreases self.active_tools@.len() - i,
            {
                let tool = &self.active_tools[i];
                proof {
                    assert(self.active_tools@.take(i + 1).drop_last() =~= self.active_tools@.take(
                        i as int,
                    ));
                }
                if !tool.finished {
                    self.build_tool_lines(tool, parallel, &mut lines);
                }
                i += 1;
            }
            proof {
                assert(self.active_tools@.take(self.active_tools@.len() as int)
                    =~= self.active_tools@);
            }
        } else if let Some(progress) = self.task_progress {
            push_line(&mut lines, build_progress_line(self.spinner_char, progress));
        }
        lines
    }

    /// Build the lines of a running tool.
    fn build_tool_lines(&self, tool: &ActiveTool, parallel: bool, lines: &mut Vec<Line>)
        requires
            self.glyphs.frames@.len() > 0,
            spawns(*tool) ==> cuttable(task_of(*tool)),
        ensures
            lines_view(final(lines)@) == lines_view(old(lines)@) + tool_lines(
                *self.glyphs,
                self.active_subagents@,
                parallel,
                *tool,
            ),
    {
        let ghost before = lines_view(lines@);
        if str_eq(tool.name.as_str(), "spawn_subagent") {
            // The subagent stays in view between its own end and the end of its tool.
            let task = argument(tool, "task", "");
            let subagent = find_subagent(self.active_subagents, task);
            push_line(lines, build_header_line(self.glyphs, tool, task, subagent));
            let ghost header = header_line(
                *self.glyphs,
                *tool,
                subagent_for(self.active_subagents@, task@),
            );
            proof {
                assert(lines_view(lines@) =~= before + seq![header]);
            }
            if let Some(sa) = subagent {
                if parallel {
                    self.build_parallel_subagent_line(sa, lines);
                } else if sa.finished {
                    push_line(lines, build_done_line(self.glyphs, sa.tool_call_count));
                } else {
                    self.build_single_subagent_lines(sa, lines);
                }
                proof {
                    let below = subagent_lines(*self.glyphs, *sa, parallel);
                    assert(lines_view(lines@) =~= before + seq![header] + below);
                    assert(before + seq![header] + below =~= before + (seq![header] + below));
                }
            }
        } else {
            push_line(lines, build_tool_line(self.glyphs, tool));
            proof {
                assert(lines_view(lines@) =~= before + seq![tool_line(*self.glyphs, *tool)]);
            }
        }
    }

    /// Build the line of one of several subagents: finished, running or starting.
    pub fn build_parallel_subagent_line(&self, sa: &SubagentDisplayState, lines: &mut Vec<Line>)
        requires
            self.glyphs.frames@.len() > 0,
        ensures
            lines_view(final(lines)@) == lines_view(old(lines)@).push(
                parallel_line(*self.glyphs, *sa),
            ),
    {
        let line = if sa.finished {
            build_done_line(self.glyphs, sa.tool_call_count)
        } else if sa.active_tools.len() > 0 {
            build_nested_line(self.glyphs, &sa.active_tools[0]).with(
                more(sa.completed_tools.len()),
                italic(Color::Grey),
            )
        } else if sa.completed_tools.len() > 0 {
            let last: usize = sa.completed_tools.len() - 1;
            build_completed_line(self.glyphs, &sa.completed_tools[last]).with(
                more(last),
                italic(Color::Grey),
            )
        } else {
            build_initializing_line(self.glyphs)
        };
        push_line(lines, line);
    }

    /// Build the lines of a subagent that runs alone, with its nested tool calls.
    pub fn build_single_subagent_lines(&self, sa: &SubagentDisplayState, lines: &mut Vec<Line>)
        requires
            self.glyphs.frames@.len() > 0,
        ensures
            lines_view(final(lines)@) == lines_view(old(lines)@) + single_lines(*self.glyphs, *sa),
    {
        let ghost before = lines_view(lines@);
        let ghost glyphs = *self.glyphs;
        let hidden: usize = if sa.completed_tools.len() > COMPLETED_SHOWN {
            sa.completed_tools.len() - COMPLETED_SHOWN
        } else {
            0
        };
        let ghost completed = sa.completed_tools@.skip(hidden as int);
        proof {
            assert(completed.take(0) =~= Seq::<CompletedTool>::empty());
            assert(before =~= before + completed_lines(glyphs, completed.take(0)));
        }
        let mut i: usize = hidden;
        while i < sa.completed_tools.len()
            invariant
                hidden <= i <= sa.completed_tools@.len(),
                self.glyphs.frames@.len() > 0,
                glyphs == *self.glyphs,
                completed == sa.completed_tools@.skip(hidden as int),
                lines_view(lines@) == before + completed_lines(
                    glyphs,
                    completed.take(i - hidden),
                ),
            decreases sa.completed_tools@.len() - i,
        {
            push_line(lines, build_completed_line(self.glyphs, &sa.completed_tools[i]));
            proof {
                assert(completed.take(i + 1 - hidden) =~= completed.take(i - hidden).push(
                    sa.completed_tools@[i as int],
                ));
                assert(lines_view(lines@) =~= before + completed_lines(
                    glyphs,
                    completed.take(i + 1 - hidden),
                ));
            }
            i += 1;
        }
        let ghost above = completed_lines(glyphs, completed);
        proof {
            assert(completed.take(completed.len() as int) =~= completed);
            assert(before + above =~= before + above + nested_lines(
                glyphs,
                sa.active_tools@.take(0),
            ));
        }
        let mut j: usize = 0;
        while j < sa.active_tools.len()
            invariant
                j <= sa.active_tools@.len(),
                self.glyphs.frames@.len() > 0,
                glyphs == *self.glyphs,
                lines_view(lines@) == before + above + nested_lines(
                    glyphs,
                    sa.active_tools@.take(j as int),
                ),
            decreases sa.active_tools@.len() - j,
        {
            push_line(lines, build_nested_line(self.glyphs, &sa.active_tools[j]));
            proof {
                assert(sa.active_tools@.take(j + 1) =~= sa.active_tools@.take(j as int).push(
                    sa.active_tools@[j as int],
                ));
                assert(lines_view(lines@) =~= before + above + nested_lines(
                    glyphs,
                    sa.active_tools@.take(j + 1),
                ));
            }
            j += 1;
        }
        proof {
            assert(sa.active_tools@.take(sa.active_tools@.len() as int) =~= sa.active_tools@);
        }
        if sa.active_tools.len() == 0 && sa.completed_tools.len() == 0 {
            push_line(lines, build_initializing_line(self.glyphs));
        }
        if hidden > 0 {
            let count = number_text(hidden as u64);
            push_line(
                lines,
                Line::new().with(
                    concat3("      +", count.as_str(), " more tool uses"),
                    italic(Color::Grey),
                ),
            );
        }
        proof {
            assert(lines_view(lines@) =~= before + single_lines(glyphs, *sa));
        }
    }
}

// ---------------------------------------------------------------------------
// Laws
// ---------------------------------------------------------------------------

/// A subagent that runs alone has a line at least, and one for each running tool, for at most
/// three completed ones, and for the count of those that are not shown.
pub proof fn law_single_subagent_lines(glyphs: SpinnerGlyphs, sa: SubagentDisplayState)
    ensures
        single_lines(glyphs, sa).len() >= 1,
        single_lines(glyphs, sa).len() <= sa.active_tools@.len() + COMPLETED_SHOWN + 1,
        sa.active_tools@.len() + sa.completed_tools@.len() > 0 ==> single_lines(glyphs, sa).len()
            == sa.active_tools@.len() + (sa.completed_tools@.len() - hidden_tools(sa)) + (
        if hidden_tools(sa) > 0 {
            1int
        } else {
            0
        }),
{
}

/// Every tool that has not finished has a line at least.
pub proof fn law_unfinished_tools_are_shown(
    glyphs: SpinnerGlyphs,
    subagents: Seq<SubagentDisplayState>,
    parallel: bool,
    tools: Seq<ActiveTool>,
)
    ensures
        active_lines(glyphs, subagents, parallel, tools).len() >= unfinished(tools).len(),
    decreases tools.len(),
{
    reveal(Seq::filter);
    if tools.len() > 0 {
        law_unfinished_tools_are_shown(glyphs, subagents, parallel, tools.drop_last());
        let runs = |tool: ActiveTool| !tool.finished;
        tools.drop_last().lemma_filter_push(tools.last(), runs);
        assert(tools.drop_last().push(tools.last()) =~= tools);
    }
}

/// A subagent that has finished shows that it is done, whether or not others are running.
pub proof fn law_finished_subagent_is_done(
    glyphs: SpinnerGlyphs,
    sa: SubagentDisplayState,
    parallel: bool,
)
    requires
        sa.finished,
    ensures
        subagent_lines(glyphs, sa, parallel) == seq![done_line(glyphs, sa.tool_call_count)],
{
}

/// The frames of the spinner follow each other and start again behind the last one.
pub proof fn law_frames_go_round(glyphs: SpinnerGlyphs, tick: usize)
    requires
        glyphs.frames@.len() > 0,
    ensures
        tick < glyphs.frames@.len() ==> frame(glyphs, tick) == glyphs.frames@[tick as int]@,
        tick + glyphs.frames@.len() <= usize::MAX ==> frame(
            glyphs,
            (tick + glyphs.frames@.len()) as usize,
        ) == frame(glyphs, tick),
{
    let n = glyphs.frames@.len() as int;
    if tick < n {
        vstd::arithmetic::div_mod::lemma_small_mod(tick as nat, n as nat);
    }
    vstd::arithmetic::div_mod::lemma_mod_add_multiples_vanish(tick as int, n);
}

/// The line of a tool shows a frame, what the tool does, what it does it to and for how long.
pub proof fn law_tool_line_shows_the_tool(glyphs: SpinnerGlyphs, tool: ActiveTool)
    ensures
        ({
            let line = tool_line(glyphs, tool);
            &&& line.len() == 4
            &&& line[0].text == glyphs.frames@[tool.tick_count as int % glyphs.frames@.len() as int]@ + " "@
            &&& line[0].style == (Style { fg: Color::BlueBright, bold: false, italic: false })
            &&& line[1].text == tool.verb@
            &&& line[1].style == (Style { fg: Color::Primary, bold: true, italic: false })
            &&& line[2].text == "("@ + tool.arg@ + ")"@
            &&& line[2].style == (Style { fg: Color::Subtle, bold: false, italic: false })
            &&& line[3].text == " ("@ + text::decimal(tool.elapsed_secs as nat) + "s)"@
            &&& line[3].style == (Style { fg: Color::Grey, bold: false, italic: false })
        }),
{
}

/// The line of a task shows the spinner, what is done, for how long, and how to stop it.
pub proof fn law_progress_line_shows_the_task(spinner: Seq<char>, progress: TaskProgress)
    ensures
        ({
            let line = progress_line(spinner, progress);
            &&& line.len() == 3
            &&& line[0].text == spinner + " "@
            &&& line[0].style == (Style { fg: Color::BlueBright, bold: false, italic: false })
            &&& line[1].text == progress.description@ + "... "@
            &&& line[1].style == (Style { fg: Color::Subtle, bold: false, italic: false })
            &&& line[2].text == "("@ + text::decimal(progress.elapsed_secs as nat) + "s \u{b7} esc to interrupt)"@
            &&& line[2].style == (Style { fg: Color::Subtle, bold: false, italic: false })
        }),
{
}

/// During a compaction its mark and its name are shown.
pub proof fn law_compaction_line_shows_the_mark(glyphs: SpinnerGlyphs)
    ensures
        ({
            let line = compaction_line(glyphs);
            &&& line.len() == 2
            &&& line[0].text == glyphs.compaction@ + " "@
            &&& line[0].style == (Style { fg: Color::BlueBright, bold: true, italic: false })
            &&& line[1].text == "Compacting conversation\u{2026}"@
            &&& line[1].style == (Style { fg: Color::Subtle, bold: false, italic: true })
        }),
{
}

/// The header of a subagent shows a frame, its name and its task. The name is that of the
/// subagent, or else the type that the tool asks for, or else `Agent`.
pub proof fn law_header_shows_name_and_task(
    glyphs: SpinnerGlyphs,
    tool: ActiveTool,
    subagent: Option<SubagentDisplayState>,
)
    ensures
        ({
            let line = header_line(glyphs, tool, subagent);
            let args = JsonView::Object(json::object_view(tool.args));
            let name = match (subagent, args.get_text("agent_type"@)) {
                (Some(sa), _) => sa.name@,
                (None, Some(kind)) => kind,
                (None, None) => "Agent"@,
            };
            let task = match args.get_text("task"@) {
                Some(given) => given,
                None => ""@,
            };
            &&& line.len() == 3
            &&& line[0].text == glyphs.frames@[tool.tick_count as int % glyphs.frames@.len() as int]@ + " "@
            &&& line[0].style == (Style { fg: Color::BlueBright, bold: false, italic: false })
            &&& line[1].text == name
            &&& line[1].style == (Style { fg: Color::Primary, bold: true, italic: false })
            &&& line[2].text == "("@ + short_task(task) + ")"@
            &&& line[2].style == (Style { fg: Color::Subtle, bold: false, italic: false })
        }),
{
}

/// The line of a subagent that has finished shows its mark and how many tools it used, if any.
pub proof fn law_done_line_counts_the_uses(glyphs: SpinnerGlyphs, count: usize)
    ensures
        ({
            let line = done_line(glyphs, count);
            let uses = if count == 0 {
                Seq::<char>::empty()
            } else {
                " ("@ + text::decimal(count as nat) + " tool uses)"@
            };
            &&& line.len() == 4
            &&& line[0].text == "  "@ + glyphs.continuation@ + "  "@
            &&& line[0].style == (Style { fg: Color::Grey, bold: false, italic: false })
            &&& line[1].text == glyphs.completed@ + " "@
            &&& line[1].style == (Style { fg: Color::GreenBright, bold: false, italic: false })
            &&& line[2].text == "Done"@
            &&& line[2].style == (Style { fg: Color::Subtle, bold: false, italic: false })
            &&& line[3].text == uses
            &&& line[3].style == (Style { fg: Color::Grey, bold: false, italic: true })
        }),
{
}

/// A subagent without a tool is initializing.
pub proof fn law_initializing_line_says_so(glyphs: SpinnerGlyphs)
    ensures
        ({
            let line = initializing_line(glyphs);
            &&& line.len() == 2
            &&& line[0].text == "  "@ + glyphs.continuation@ + "  "@
            &&& line[0].style == (Style { fg: Color::Grey, bold: false, italic: false })
            &&& line[1].text == "Initializing\u{2026}"@
            &&& line[1].style == (Style { fg: Color::Subtle, bold: false, italic: true })
        }),
{
}

/// The line of a tool that a subagent is running shows a frame and the tool.
pub proof fn law_nested_line_shows_the_tool(glyphs: SpinnerGlyphs, tool: NestedTool)
    ensures
        ({
            let line = nested_line(glyphs, tool);
            &&& line.len() == 4
            &&& line[0].text == "  "@ + glyphs.continuation@ + "  "@
            &&& line[0].style == (Style { fg: Color::Grey, bold: false, italic: false })
            &&& line[1].text == glyphs.frames@[tool.tick as int % glyphs.frames@.len() as int]@ + " "@
            &&& line[1].style == (Style { fg: Color::BlueBright, bold: false, italic: false })
            &&& line[2].text == tool.verb@
            &&& line[2].style == (Style { fg: Color::Subtle, bold: false, italic: false })
            &&& line[3].text == "("@ + tool.arg@ + ")"@
            &&& line[3].style == (Style { fg: Color::Grey, bold: false, italic: false })
        }),
{
}

/// The line of a tool that a subagent has run shows whether it succeeded, and the tool.
pub proof fn law_completed_line_shows_the_outcome(glyphs: SpinnerGlyphs, tool: CompletedTool)
    ensures
        ({
            let line = completed_line(glyphs, tool);
            let mark = if tool.success {
                glyphs.completed@ + " "@
            } else {
                "\u{2717} "@
            };
            let color = if tool.success {
                Color::GreenBright
            } else {
                Color::Error
            };
            &&& line.len() == 4
            &&& line[0].text == "  "@ + glyphs.continuation@ + "  "@
            &&& line[0].style == (Style { fg: Color::Grey, bold: false, italic: false })
            &&& line[1].text == mark
            &&& line[1].style == (Style { fg: color, bold: false, italic: false })
            &&& line[2].text == tool.verb@
            &&& line[2].style == (Style { fg: Color::Subtle, bold: false, italic: false })
            &&& line[3].text == "("@ + tool.arg@ + ")"@
            &&& line[3].style == (Style { fg: Color::Grey, bold: false, italic: false })
        }),
{
}

/// The subagent of a task is the first one with that task, and there is none only where no
/// subagent has the task.
pub proof fn law_subagent_is_the_first_with_the_task(
    subagents: Seq<SubagentDisplayState>,
    task: Seq<char>,
    i: int,
)
    requires
        0 <= i < subagents.len(),
        subagents[i].task@ == task,
    ensures
        (forall|j: int| 0 <= j < i ==> (#[trigger] subagents[j]).task@ != task) ==> subagent_for(
            subagents,
            task,
        ) == Some(subagents[i]),
        subagent_for(subagents, task) matches Some(sa) && sa.task@ == task,
    decreases subagents.len(),
{
    if subagents[0].task@ != task {
        let rest = subagents.drop_first();
        law_subagent_is_the_first_with_the_task(rest, task, i - 1);
        if forall|j: int| 0 <= j < i ==> (#[trigger] subagents[j]).task@ != task {
            assert forall|j: int| 0 <= j < i - 1 implies (#[trigger] rest[j]).task@ != task by {
                assert(rest[j] == subagents[j + 1]);
            }
        }
    }
}

/// Where no subagent has a task, none is found for it.
pub proof fn law_no_subagent_without_the_task(
    subagents: Seq<SubagentDisplayState>,
    task: Seq<char>,
)
    requires
        forall|i: int| 0 <= i < subagents.len() ==> (#[trigger] subagents[i]).task@ != task,
    ensures
        subagent_for(subagents, task) is None,
    decreases subagents.len(),
{
    if subagents.len() > 0 {
        let rest = subagents.drop_first();
        assert forall|i: int| 0 <= i < rest.len() implies (#[trigger] rest[i]).task@ != task by {
            assert(rest[i] == subagents[i + 1]);
        }
        law_no_subagent_without_the_task(rest, task);
    }
}

/// A task of up to 60 bytes is shown whole. Of a longer one that can be cut there the first 60
/// bytes are shown, with three dots behind them.
pub proof fn law_task_is_cut_at_sixty_bytes(task: Seq<char>)
    ensures
        ({
            let bytes = vstd::utf8::encode_utf8(task);
            &&& bytes.len() <= 60 ==> short_task(task) == task && cuttable(task)
            &&& bytes.len() > 60 ==> (cuttable(task) <==> vstd::utf8::is_char_boundary(bytes, 60))
            &&& bytes.len() > 60 ==> short_task(task) == vstd::utf8::decode_utf8(
                bytes.subrange(0, 60),
            ) + "..."@
        }),
{
}

/// A long task of ASCII characters is shown by its first 60 characters and three dots.
pub proof fn law_ascii_task_is_cut_at_sixty_characters(task: Seq<char>)
    requires
        vstd::utf8::is_ascii_chars(task),
        task.len() > 60,
    ensures
        short_task(task) == task.take(60) + "..."@,
{
    let bytes = vstd::utf8::encode_utf8(task);
    let front = task.take(60);
    vstd::utf8::is_ascii_chars_encode_utf8(task);
    assert forall|i: int| 0 <= i < front.len() implies '\0' <= #[trigger] front[i] <= '\u{7f}' by {
        assert(front[i] == task[i]);
    }
    assert(vstd::utf8::is_ascii_chars(front));
    vstd::utf8::is_ascii_chars_encode_utf8(front);
    assert(bytes.subrange(0, 60) =~= vstd::utf8::encode_utf8(front));
    vstd::utf8::encode_utf8_decode_utf8(front);
}

/// The last three completed tools of a subagent are shown, and all where there are no more.
pub proof fn law_last_three_tools_are_shown(sa: SubagentDisplayState)
    ensures
        sa.completed_tools@.len() <= 3 ==> hidden_tools(sa) == 0,
        sa.completed_tools@.len() > 3 ==> hidden_tools(sa) + 3 == sa.completed_tools@.len(),
{
}

/// A subagent that runs alone shows the completed tools that are not hidden, in their order, then
/// the running ones in theirs, then how many are hidden. Without any tool it is initializing.
pub proof fn law_single_lines_show_the_tools(glyphs: SpinnerGlyphs, sa: SubagentDisplayState, i: int)
    ensures
        ({
            let lines = single_lines(glyphs, sa);
            let hidden = hidden_tools(sa) as int;
            let shown = sa.completed_tools@.len() - hidden;
            let running = sa.active_tools@.len() as int;
            &&& 0 <= i < shown ==> lines[i] == completed_line(
                glyphs,
                sa.completed_tools@[hidden + i],
            )
            &&& 0 <= i < running ==> lines[shown + i] == nested_line(glyphs, sa.active_tools@[i])
            &&& hidden > 0 ==> lines.len() == shown + running + 1 && lines.last().len() == 1
                && lines.last()[0].text == "      +"@ + text::decimal(hidden as nat)
                + " more tool uses"@ && lines.last()[0].style == (Style { fg: Color::Grey, bold: false, italic: true })
            &&& hidden == 0 && shown + running > 0 ==> lines.len() == shown + running
            &&& shown + running == 0 ==> lines == seq![initializing_line(glyphs)]
        }),
{
    let shown = completed_lines(glyphs, sa.completed_tools@.skip(hidden_tools(sa) as int));
    let running = nested_lines(glyphs, sa.active_tools@);
    if sa.active_tools@.len() == 0 && sa.completed_tools@.len() == 0 {
        assert(single_lines(glyphs, sa) =~= seq![initializing_line(glyphs)]);
    } else if 0 <= i < sa.active_tools@.len() {
        assert((shown + running)[shown.len() + i] == running[i]);
    }
}

/// One of several subagents shows one line: that it is done, or else its first running tool, or
/// else its last completed one, with the number of the other completed ones behind it, or else
/// that it is initializing.
pub proof fn law_parallel_line_shows_the_state(glyphs: SpinnerGlyphs, sa: SubagentDisplayState)
    ensures
        ({
            let line = parallel_line(glyphs, sa);
            let running = sa.active_tools@.len();
            let completed = sa.completed_tools@.len();
            let others: int = if running > 0 {
                completed as int
            } else {
                completed - 1
            };
            let count = if others == 0 {
                Seq::<char>::empty()
            } else {
                " +"@ + text::decimal(others as nat) + " more"@
            };
            &&& sa.finished ==> line == done_line(glyphs, sa.tool_call_count)
            &&& !sa.finished && running > 0 ==> line.drop_last() == nested_line(
                glyphs,
                sa.active_tools@[0],
            )
            &&& !sa.finished && running == 0 && completed > 0 ==> line.drop_last()
                == completed_line(glyphs, sa.completed_tools@[completed - 1])
            &&& !sa.finished && running + completed > 0 ==> line.len() > 0 && line.last().text
                == count && line.last().style == (Style { fg: Color::Grey, bold: false, italic: true })
            &&& !sa.finished && running + completed == 0 ==> line == initializing_line(glyphs)
        }),
{
    let line = parallel_line(glyphs, sa);
    if !sa.finished && sa.active_tools@.len() > 0 {
        assert(line.drop_last() =~= nested_line(glyphs, sa.active_tools@[0]));
    } else if !sa.finished && sa.completed_tools@.len() > 0 {
        assert(line.drop_last() =~= completed_line(glyphs, sa.completed_tools@.last()));
    }
}

/// A tool that starts a subagent shows the header of it, and below that the lines of the subagent
/// with its task, if there is one. Any other tool shows its own line.
pub proof fn law_tool_shows_its_subagent(
    glyphs: SpinnerGlyphs,
    subagents: Seq<SubagentDisplayState>,
    parallel: bool,
    tool: ActiveTool,
)
    ensures
        ({
            let lines = tool_lines(glyphs, subagents, parallel, tool);
            let task = match JsonView::Object(json::object_view(tool.args)).get_text("task"@) {
                Some(given) => given,
                None => ""@,
            };
            let subagent = subagent_for(subagents, task);
            &&& tool.name@ != "spawn_subagent"@ ==> lines == seq![tool_line(glyphs, tool)]
            &&& tool.name@ == "spawn_subagent"@ ==> lines.len() > 0 && lines[0] == header_line(
                glyphs,
                tool,
                subagent,
            ) && lines.drop_first() == match subagent {
                None => Seq::<Seq<SpanView>>::empty(),
                Some(sa) => if parallel {
                    seq![parallel_line(glyphs, sa)]
                } else if sa.finished {
                    seq![done_line(glyphs, sa.tool_call_count)]
                } else {
                    single_lines(glyphs, sa)
                },
            }
        }),
{
    if spawns(tool) {
        let lines = tool_lines(glyphs, subagents, parallel, tool);
        match subagent_for(subagents, task_of(tool)) {
            Some(sa) => {
                assert(lines.drop_first() =~= subagent_lines(glyphs, sa, parallel));
            },
            None => {
                assert(lines.drop_first() =~= Seq::empty());
            },
        }
    }
}

/// One more tool adds its lines behind the others, unless it has finished.
pub proof fn law_tools_are_shown_in_order(
    glyphs: SpinnerGlyphs,
    subagents: Seq<SubagentDisplayState>,
    parallel: bool,
    tools: Seq<ActiveTool>,
    tool: ActiveTool,
)
    ensures
        active_lines(glyphs, subagents, parallel, Seq::empty()).len() == 0,
        tool.finished ==> active_lines(glyphs, subagents, parallel, tools.push(tool))
            == active_lines(glyphs, subagents, parallel, tools),
        !tool.finished ==> active_lines(glyphs, subagents, parallel, tools.push(tool))
            == active_lines(glyphs, subagents, parallel, tools) + tool_lines(
            glyphs,
            subagents,
            parallel,
            tool,
        ),
{
    assert(tools.push(tool).drop_last() =~= tools);
}

/// Whether a tool that has not finished starts a subagent.
spec fn starts_one(tool: ActiveTool) -> bool {
    !tool.finished && tool.name@ == "spawn_subagent"@
}

proof fn lemma_running_subagents(tools: Seq<ActiveTool>) -> (count: nat)
    ensures
        count == unfinished(tools).filter(|tool: ActiveTool| spawns(tool)).len(),
        count >= 1 <==> exists|i: int| 0 <= i < tools.len() && starts_one(#[trigger] tools[i]),
        count >= 2 <==> exists|i: int, j: int|
            0 <= i < j < tools.len() && starts_one(#[trigger] tools[i]) && starts_one(
                #[trigger] tools[j],
            ),
    decreases tools.len(),
{
    let runs = |tool: ActiveTool| !tool.finished;
    let starts = |tool: ActiveTool| spawns(tool);
    let count = unfinished(tools).filter(starts).len();
    if tools.len() == 0 {
        assert(tools.filter(runs) =~= Seq::empty()) by {
            reveal(Seq::filter);
        }
        assert(tools.filter(runs).filter(starts) =~= Seq::empty()) by {
            reveal(Seq::filter);
        }
    } else {
        let init = tools.drop_last();
        let last = tools.last();
        let before = lemma_running_subagents(init);
        assert(init.push(last) =~= tools);
        init.lemma_filter_push(last, runs);
        init.filter(runs).lemma_filter_push(last, starts);
        assert(count == before + if starts_one(last) {
            1nat
        } else {
            0nat
        });
        assert(starts_one(last) == starts_one(tools[tools.len() - 1]));
        if before >= 1 {
            let i = choose|i: int| 0 <= i < init.len() && starts_one(#[trigger] init[i]);
            assert(starts_one(tools[i]));
        }
        if before >= 2 {
            let (i, j) = choose|i: int, j: int|
                0 <= i < j < init.len() && starts_one(#[trigger] init[i]) && starts_one(
                    #[trigger] init[j],
                );
            assert(starts_one(tools[i]) && starts_one(tools[j]));
        }
        if exists|i: int| 0 <= i < tools.len() && starts_one(#[trigger] tools[i]) {
            let i = choose|i: int| 0 <= i < tools.len() && starts_one(#[trigger] tools[i]);
            if i < init.len() {
                assert(starts_one(init[i]));
            }
        }
        if exists|i: int, j: int|
            0 <= i < j < tools.len() && starts_one(#[trigger] tools[i]) && starts_one(
                #[trigger] tools[j],
            ) {
            let (i, j) = choose|i: int, j: int|
                0 <= i < j < tools.len() && starts_one(#[trigger] tools[i]) && starts_one(
                    #[trigger] tools[j],
                );
            assert(starts_one(init[i]));
            if j < init.len() {
                assert(starts_one(init[j]));
            }
        }
    }
    count
}

/// Subagents run in parallel exactly where two tools that have not finished start one.
pub proof fn law_two_subagents_are_parallel(tools: Seq<ActiveTool>)
    ensures
        is_parallel(tools) <==> exists|i: int, j: int|
            0 <= i < j < tools.len() && !(#[trigger] tools[i]).finished && tools[i].name@
                == "spawn_subagent"@ && !(#[trigger] tools[j]).finished && tools[j].name@
                == "spawn_subagent"@,
{
    let count = lemma_running_subagents(tools);
    if is_parallel(tools) {
        let (i, j) = choose|i: int, j: int|
            0 <= i < j < tools.len() && starts_one(#[trigger] tools[i]) && starts_one(
                #[trigger] tools[j],
            );
        assert(!tools[i].finished && !tools[j].finished);
    }
    if exists|i: int, j: int|
        0 <= i < j < tools.len() && !(#[trigger] tools[i]).finished && tools[i].name@
            == "spawn_subagent"@ && !(#[trigger] tools[j]).finished && tools[j].name@
            == "spawn_subagent"@ {
        let (i, j) = choose|i: int, j: int|
            0 <= i < j < tools.len() && !(#[trigger] tools[i]).finished && tools[i].name@
                == "spawn_subagent"@ && !(#[trigger] tools[j]).finished && tools[j].name@
                == "spawn_subagent"@;
        assert(starts_one(tools[i]) && starts_one(tools[j]));
    }
}

/// A compaction is shown before anything else, tools that have not finished before the task, and
/// the task last. Without any of them nothing is shown.
pub proof fn law_compaction_goes_before_tools_before_task(widget: ConversationWidget<'_>)
    ensures
        ({
            let lines = widget.spinner_lines();
            let running = exists|i: int|
                0 <= i < widget.active_tools@.len() && !(
                #[trigger] widget.active_tools@[i]).finished;
            &&& widget.compaction_active ==> lines == seq![compaction_line(*widget.glyphs)]
            &&& !widget.compaction_active && running ==> lines.len() > 0 && lines == active_lines(
                *widget.glyphs,
                widget.active_subagents@,
                is_parallel(widget.active_tools@),
                widget.active_tools@,
            )
            &&& !widget.compaction_active && !running ==> match widget.task_progress {
                Some(progress) => lines == seq![progress_line(widget.spinner_char@, *progress)],
                None => lines.len() == 0,
            }
        }),
{
    broadcast use vstd::seq_lib::group_filter_ensures;

    let tools = widget.active_tools@;
    let runs = |tool: ActiveTool| !tool.finished;
    let left = tools.filter(runs);
    law_unfinished_tools_are_shown(
        *widget.glyphs,
        widget.active_subagents@,
        is_parallel(tools),
        tools,
    );
    if exists|i: int| 0 <= i < tools.len() && !(#[trigger] tools[i]).finished {
        let i = choose|i: int| 0 <= i < tools.len() && !(#[trigger] tools[i]).finished;
        assert(runs(tools[i]));
        assert(left.contains(tools[i]));
    }
    if left.len() > 0 {
        assert(runs(left[0]));
        assert(left.contains(left[0]));
        tools.lemma_filter_contains_rev(runs, left[0]);
        let i = choose|i: int| 0 <= i < tools.len() && tools[i] == left[0];
        assert(!tools[i].finished);
    }
}

/// The lines can be built exactly where there is a frame and every task that is shown is of up to
/// 60 bytes, or can be cut there.
pub proof fn law_lines_need_a_frame_and_whole_characters(widget: ConversationWidget<'_>, i: int)
    ensures
        widget.buildable() ==> widget.glyphs.frames@.len() > 0,
        widget.compaction_active ==> (widget.buildable() <==> widget.glyphs.frames@.len() > 0),
        widget.buildable() && !widget.compaction_active && 0 <= i < widget.active_tools@.len()
            && !widget.active_tools@[i].finished && widget.active_tools@[i].name@
            == "spawn_subagent"@ ==> {
            let bytes = vstd::utf8::encode_utf8(task_of(widget.active_tools@[i]));
            bytes.len() <= 60 || vstd::utf8::is_char_boundary(bytes, 60)
        },
        widget.glyphs.frames@.len() > 0 && (forall|k: int|
            0 <= k < widget.active_tools@.len() ==> (
            #[trigger] widget.active_tools@[k]).finished || widget.active_tools@[k].name@
                != "spawn_subagent"@ || vstd::utf8::encode_utf8(
                task_of(widget.active_tools@[k]),
            ).len() <= 60) ==> widget.buildable(),
{
}

/// A line says the texts of its spans with their styles, and a list of lines what each of them
/// says.
pub proof fn law_lines_say_their_spans(lines: Seq<Line>, i: int, k: int)
    requires
        0 <= i < lines.len(),
        0 <= k < lines[i].spans@.len(),
    ensures
        lines_view(lines).len() == lines.len(),
        lines_view(lines)[i].len() == lines[i].spans@.len(),
        lines_view(lines)[i][k].text == lines[i].spans@[k].text@,
        lines_view(lines)[i][k].style == lines[i].spans@[k].style,
{
}

/// A style has its color, and is bold or italic exactly where it is meant to be.
pub proof fn law_styles_are_plain_bold_or_italic(fg: Color)
    ensures
        plain_style(fg).fg == fg && !plain_style(fg).bold && !plain_style(fg).italic,
        bold_style(fg).fg == fg && bold_style(fg).bold && !bold_style(fg).italic,
        italic_style(fg).fg == fg && !italic_style(fg).bold && italic_style(fg).italic,
{
}

} // verus!
