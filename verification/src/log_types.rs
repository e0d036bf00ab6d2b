//! Data model of parsed GitHub Actions logs.
use vstd::prelude::*;

verus! {

/// Standard ANSI named colors (0-15).
#[derive(Debug, Clone, Copy, PartialEq, Eq, Structural)]
pub enum NamedColor {
    Black,
    Red,
    Green,
    Yellow,
    Blue,
    Magenta,
    Cyan,
    White,
    BrightBlack,
    BrightRed,
    BrightGreen,
    BrightYellow,
    BrightBlue,
    BrightMagenta,
    BrightCyan,
    BrightWhite,
}

/// ANSI color representation supporting multiple color modes.
#[derive(Debug, Clone, Copy, PartialEq, Eq, Structural)]
pub enum Color {
    /// 24-bit RGB color
    Rgb(u8, u8, u8),
    /// 256-color palette index
    Palette256(u8),
    /// Named ANSI color (0-15)
    Named(NamedColor),
}

/// ANSI styling information.
#[derive(Debug, Clone, Copy, PartialEq, Eq, Structural)]
pub struct AnsiStyle {
    pub fg_color: Option<Color>,
    pub bg_color: Option<Color>,
    pub bold: bool,
    pub faint: bool,
    pub italic: bool,
    pub underline: bool,
    pub blink: bool,
    pub reversed: bool,
    pub hidden: bool,
    pub strikethrough: bool,
}

/// The unstyled state: no colors, no attributes.
pub open spec fn plain_style() -> AnsiStyle {
    AnsiStyle {
        fg_color: None,
        bg_color: None,
        bold: false,
        faint: false,
        italic: false,
        underline: false,
        blink: false,
        reversed: false,
        hidden: false,
        strikethrough: false,
    }
}

impl AnsiStyle {
    /// The unstyled state.
    pub fn plain() -> (r: AnsiStyle)
        ensures
            r == plain_style(),
    {
        AnsiStyle {
            fg_color: None,
            bg_color: None,
            bold: false,
            faint: false,
            italic: false,
            underline: false,
            blink: false,
            reversed: false,
            hidden: false,
            strikethrough: false,
        }
    }
}

impl Default for AnsiStyle {
    fn default() -> (r: AnsiStyle)
        ensures
            r == plain_style(),
    {
        AnsiStyle::plain()
    }
}

/// A segment of text with preserved ANSI styling.
#[derive(Debug)]
pub struct StyledSegment {
    pub text: String,
    pub style: AnsiStyle,
}

pub struct StyledSegmentView {
    pub text: Seq<char>,
    pub style: AnsiStyle,
}

impl View for StyledSegment {
    type V = StyledSegmentView;

    open spec fn view(&self) -> StyledSegmentView {
        StyledSegmentView { text: self.text@, style: self.style }
    }
}

impl Clone for StyledSegment {
    fn clone(&self) -> (r: Self)
        ensures
            r == *self,
    {
        StyledSegment { text: self.text.clone(), style: self.style }
    }
}

impl StyledSegment {
    /// Create a new unstyled segment.
    pub fn new(text: String) -> (r: Self)
        ensures
            r.text == text,
            r.style == plain_style(),
    {
        StyledSegment { text, style: AnsiStyle::plain() }
    }

    /// Create a segment with specific styling.
    pub fn with_style(text: String, style: AnsiStyle) -> (r: Self)
        ensures
            r.text == text,
            r.style == style,
    {
        StyledSegment { text, style }
    }
}

/// Views of a list of segments.
pub open spec fn segments_view(v: Seq<StyledSegment>) -> Seq<StyledSegmentView> {
    v.map_values(|s: StyledSegment| s@)
}

/// The segments' texts, one after the other.
pub open spec fn joined_texts(segs: Seq<StyledSegmentView>) -> Seq<char>
    decreases segs.len(),
{
    if segs.len() == 0 {
        Seq::empty()
    } else {
        joined_texts(segs.drop_last()) + segs.last().text
    }
}


/// Optional parameters for workflow commands.
#[derive(Debug)]
pub struct CommandParams {
    pub file: Option<String>,
    pub line: Option<usize>,
    pub col: Option<usize>,
    pub end_column: Option<usize>,
    pub end_line: Option<usize>,
    pub title: Option<String>,
}

pub struct CommandParamsView {
    pub file: Option<Seq<char>>,
    pub line: Option<usize>,
    pub col: Option<usize>,
    pub end_column: Option<usize>,
    pub end_line: Option<usize>,
    pub title: Option<Seq<char>>,
}

pub open spec fn opt_string_view(o: Option<String>) -> Option<Seq<char>> {
    match o {
        Some(s) => Some(s@),
        None => None,
    }
}

impl View for CommandParams {
    type V = CommandParamsView;

    open spec fn view(&self) -> CommandParamsView {
        CommandParamsView {
            file: opt_string_view(self.file),
            line: self.line,
            col: self.col,
            end_column: self.end_column,
            end_line: self.end_line,
            title: opt_string_view(self.title),
        }
    }
}

pub open spec fn empty_params() -> CommandParamsView {
    CommandParamsView {
        file: None,
        line: None,
        col: None,
        end_column: None,
        end_line: None,
        title: None,
    }
}

pub fn clone_opt_string(o: &Option<String>) -> (r: Option<String>)
    ensures
        r == *o,
{
    match o {
        Some(s) => Some(s.clone()),
        None => None,
    }
}

impl Clone for CommandParams {
    fn clone(&self) -> (r: Self)
        ensures
            r == *self,
    {
        CommandParams {
            file: clone_opt_string(&self.file),
            line: self.line,
            col: self.col,
            end_column: self.end_column,
            end_line: self.end_line,
            title: clone_opt_string(&self.title),
        }
    }
}

impl CommandParams {
    /// No parameters.
    pub fn empty() -> (r: Self)
        ensures
            r@ == empty_params(),
    {
        CommandParams { file: None, line: None, col: None, end_column: None, end_line: None, title: None }
    }
}

impl Default for CommandParams {
    fn default() -> (r: Self)
        ensures
            r@ == empty_params(),
    {
        CommandParams::empty()
    }
}

/// GitHub Actions workflow command.
#[derive(Debug)]
pub enum WorkflowCommand {
    /// Start of a collapsible group: `::group::{title}`
    GroupStart { title: String },
    /// End of a group: `::endgroup::`
    GroupEnd,
    /// Error annotation: `::error file={f},line={l}::{message}`
    Error { message: String, params: CommandParams },
    /// Warning annotation: `::warning::{message}`
    Warning { message: String, params: CommandParams },
    /// Debug message: `::debug::{message}`
    Debug { message: String },
    /// Notice annotation: `::notice::{message}`
    Notice { message: String, params: CommandParams },
}

pub enum WorkflowCommandView {
    GroupStart { title: Seq<char> },
    GroupEnd,
    Error { message: Seq<char>, params: CommandParamsView },
    Warning { message: Seq<char>, params: CommandParamsView },
    Debug { message: Seq<char> },
    Notice { message: Seq<char>, params: CommandParamsView },
}

impl View for WorkflowCommand {
    type V = WorkflowCommandView;

    open spec fn view(&self) -> WorkflowCommandView {
        match self {
            WorkflowCommand::GroupStart { title } => WorkflowCommandView::GroupStart { title: title@ },
            WorkflowCommand::GroupEnd => WorkflowCommandView::GroupEnd,
            WorkflowCommand::Error { message, params } => WorkflowCommandView::Error {
                message: message@,
                params: params@,
            },
            WorkflowCommand::Warning { message, params } => WorkflowCommandView::Warning {
                message: message@,
                params: params@,
            },
            WorkflowCommand::Debug { message } => WorkflowCommandView::Debug { message: message@ },
            WorkflowCommand::Notice { message, params } => WorkflowCommandView::Notice {
                message: message@,
                params: params@,
            },
        }
    }
}

impl Clone for WorkflowCommand {
    fn clone(&self) -> (r: Self)
        ensures
            r == *self,
    {
        match self {
            WorkflowCommand::GroupStart { title } => WorkflowCommand::GroupStart { title: title.clone() },
            WorkflowCommand::GroupEnd => WorkflowCommand::GroupEnd,
            WorkflowCommand::Error { message, params } => WorkflowCommand::Error {
                message: message.clone(),
                params: params.clone(),
            },
            WorkflowCommand::Warning { message, params } => WorkflowCommand::Warning {
                message: message.clone(),
                params: params.clone(),
            },
            WorkflowCommand::Debug { message } => WorkflowCommand::Debug { message: message.clone() },
            WorkflowCommand::Notice { message, params } => WorkflowCommand::Notice {
                message: message.clone(),
                params: params.clone(),
            },
        }
    }
}

pub open spec fn opt_command_view(o: Option<WorkflowCommand>) -> Option<WorkflowCommandView> {
    match o {
        Some(c) => Some(c@),
        None => None,
    }
}

/// A single line in the log with all metadata.
#[derive(Debug)]
pub struct LogLine {
    /// Raw text content (ANSI codes preserved)
    pub content: String,
    /// Cleaned display content (workflow commands removed, ready for display)
    pub display_content: String,
    /// Extracted timestamp (if present in GitHub Actions format)
    pub timestamp: Option<String>,
    /// Styled text segments with ANSI styling preserved
    pub styled_segments: Vec<StyledSegment>,
    /// GitHub Actions workflow command (if this line contains one)
    pub command: Option<WorkflowCommand>,
    /// Group nesting level (0 = not in group, 1+ = nested depth)
    pub group_level: usize,
    /// Title of the containing group (if inside a group)
    pub group_title: Option<String>,
    /// True if this line is pure metadata that should be hidden in normal view
    pub is_metadata: bool,
    /// True if this line is a command invocation (had `[command]` prefix)
    pub is_command: bool,
}

pub struct LogLineView {
    pub content: Seq<char>,
    pub display_content: Seq<char>,
    pub timestamp: Option<Seq<char>>,
    pub styled_segments: Seq<StyledSegmentView>,
    pub command: Option<WorkflowCommandView>,
    pub group_level: usize,
    pub group_title: Option<Seq<char>>,
    pub is_metadata: bool,
    pub is_command: bool,
}

impl View for LogLine {
    type V = LogLineView;

    open spec fn view(&self) -> LogLineView {
        LogLineView {
            content: self.content@,
            display_content: self.display_content@,
            timestamp: opt_string_view(self.timestamp),
            styled_segments: segments_view(self.styled_segments@),
            command: opt_command_view(self.command),
            group_level: self.group_level,
            group_title: opt_string_view(self.group_title),
            is_metadata: self.is_metadata,
            is_command: self.is_command,
        }
    }
}

pub fn clone_segments(v: &Vec<StyledSegment>) -> (r: Vec<StyledSegment>)
    ensures
        r@ == v@,
{
    let mut r: Vec<StyledSegment> = Vec::new();
    let mut i: usize = 0;
    while i < v.len()
        invariant
            i <= v@.len(),
            r@ == v@.take(i as int),
        decreases v@.len() - i,
    {
        r.push(v[i].clone());
        proof {
            assert(v@.take(i + 1) == v@.take(i as int).push(v@[i as int]));
        }
        i = i + 1;
    }
    proof {
        assert(v@.take(v@.len() as int) == v@);
    }
    r
}

impl Clone for LogLine {
    fn clone(&self) -> (r: Self)
        ensures
            r@ == self@,
    {
        LogLine {
            content: self.content.clone(),
            display_content: self.display_content.clone(),
            timestamp: clone_opt_string(&self.timestamp),
            styled_segments: clone_segments(&self.styled_segments),
            command: match &self.command {
                Some(c) => Some(c.clone()),
                None => None,
            },
            group_level: self.group_level,
            group_title: clone_opt_string(&self.group_title),
            is_metadata: self.is_metadata,
            is_command: self.is_command,
        }
    }
}

/// Views of a list of log lines.
pub open spec fn lines_view(v: Seq<LogLine>) -> Seq<LogLineView> {
    v.map_values(|l: LogLine| l@)
}

impl LogLine {
    /// Create a new log line with just content.
    pub fn new(content: String) -> (r: Self)
        ensures
            r.content@ == content@,
            r.display_content@ == content@,
            r.timestamp is None,
            r.styled_segments@.len() == 0,
            r.command is None,
            r.group_level == 0,
            r.group_title is None,
            !r.is_metadata,
            !r.is_command,
    {
        let display_content = content.clone();
        LogLine {
            content,
            display_content,
            timestamp: None,
            styled_segments: Vec::new(),
            command: None,
            group_level: 0,
            group_title: None,
            is_metadata: false,
            is_command: false,
        }
    }

    /// The text of the line without escape codes: its styled segments' texts
    /// joined.
    pub fn plain_text(&self) -> (r: String)
        ensures
            r@ == joined_texts(segments_view(self.styled_segments@)),
    {
        let mut acc: Vec<char> = Vec::new();
        let mut i: usize = 0;
        while i < self.styled_segments.len()
            invariant
                i <= self.styled_segments@.len(),
                acc@ == joined_texts(segments_view(self.styled_segments@.take(i as int))),
            decreases self.styled_segments@.len() - i,
        {
            proof {
                let t = self.styled_segments@.take(i + 1);
                assert(segments_view(t).drop_last() =~= segments_view(self.styled_segments@.take(i as int)));
                assert(segments_view(t).last() == self.styled_segments@[i as int]@);
            }
            crate::text::push_str(&mut acc, self.styled_segments[i].text.as_str());
            i = i + 1;
        }
        assert(self.styled_segments@.take(i as int) =~= self.styled_segments@);
        crate::text::from_chars(acc.as_slice())
    }

    /// Check if this line should be displayed (not pure metadata).
    pub fn should_display(&self) -> (r: bool)
        ensures
            r == !self.is_metadata,
    {
        !self.is_metadata
    }
}

/// A single job's log output.
#[derive(Debug, Clone)]
pub struct JobLog {
    /// Name of the job (derived from filename in ZIP)
    pub name: String,
    /// All parsed log lines for this job
    pub lines: Vec<LogLine>,
}

pub struct JobLogView {
    pub name: Seq<char>,
    pub lines: Seq<LogLineView>,
}

impl View for JobLog {
    type V = JobLogView;

    open spec fn view(&self) -> JobLogView {
        JobLogView { name: self.name@, lines: lines_view(self.lines@) }
    }
}

pub open spec fn jobs_view(v: Seq<JobLog>) -> Seq<JobLogView> {
    v.map_values(|j: JobLog| j@)
}

impl JobLog {
    /// Create a new job log.
    pub fn new(name: String) -> (r: Self)
        ensures
            r.name == name,
            r.lines@.len() == 0,
    {
        JobLog { name, lines: Vec::new() }
    }
}

/// Root structure containing all parsed logs from a workflow run.
#[derive(Debug, Clone)]
pub struct ParsedLog {
    /// All job logs extracted from the workflow
    pub jobs: Vec<JobLog>,
}

impl ParsedLog {
    /// Create a new empty parsed log.
    pub fn new() -> (r: Self)
        ensures
            r.jobs@.len() == 0,
    {
        ParsedLog { jobs: Vec::new() }
    }
}

impl Default for ParsedLog {
    fn default() -> (r: Self)
        ensures
            r.jobs@.len() == 0,
    {
        ParsedLog::new()
    }
}

/// A step within a job (corresponds to `::group::` sections).
#[derive(Debug, Clone)]
pub struct StepNode {
    /// Step name from `::group::` title
    pub name: String,
    /// Log lines in this step
    pub lines: Vec<LogLine>,
    /// Error count in this step
    pub error_count: usize,
}

pub struct StepNodeView {
    pub name: Seq<char>,
    pub lines: Seq<LogLineView>,
    pub error_count: usize,
}

impl View for StepNode {
    type V = StepNodeView;

    open spec fn view(&self) -> StepNodeView {
        StepNodeView { name: self.name@, lines: lines_view(self.lines@), error_count: self.error_count }
    }
}

pub open spec fn steps_view(v: Seq<StepNode>) -> Seq<StepNodeView> {
    v.map_values(|s: StepNode| s@)
}

/// A job within a workflow.
#[derive(Debug, Clone)]
pub struct JobNode {
    /// Job log name as found in the ZIP archive
    pub name: String,
    /// Steps within this job
    pub steps: Vec<StepNode>,
    /// Total errors in this job
    pub error_count: usize,
}

/// A workflow containing multiple jobs.
#[derive(Debug, Clone)]
pub struct WorkflowNode {
    /// Workflow name (e.g., "CI", "Deploy")
    pub name: String,
    /// Jobs within this workflow
    pub jobs: Vec<JobNode>,
    /// Total error count across all jobs
    pub total_errors: usize,
    /// Whether any job failed
    pub has_failures: bool,
}

/// Hierarchical view of workflow logs: workflows contain jobs, jobs contain steps.
#[derive(Debug, Clone)]
pub struct LogTree {
    /// Root-level workflows
    pub workflows: Vec<WorkflowNode>,
}

/// Sum of the `total_errors` of the given workflows.
pub open spec fn sum_workflow_errors(w: Seq<WorkflowNode>) -> int
    decreases w.len(),
{
    if w.len() == 0 {
        0
    } else {
        sum_workflow_errors(w.drop_last()) + w.last().total_errors
    }
}

impl LogTree {
    /// Create an empty log tree.
    pub fn new() -> (r: Self)
        ensures
            r.workflows@.len() == 0,
    {
        LogTree { workflows: Vec::new() }
    }

    /// Count total errors across all workflows.
    pub fn total_errors(&self) -> (r: usize)
        requires
            sum_workflow_errors(self.workflows@) <= usize::MAX,
        ensures
            r == sum_workflow_errors(self.workflows@),
    {
        let mut total: usize = 0;
        let mut i: usize = 0;
        while i < self.workflows.len()
            invariant
                i <= self.workflows@.len(),
                sum_workflow_errors(self.workflows@) <= usize::MAX,
                total == sum_workflow_errors(self.workflows@.take(i as int)),
            decreases self.workflows@.len() - i,
        {
            proof {
                assert(self.workflows@.take(i + 1).drop_last() == self.workflows@.take(i as int));
                lemma_sum_workflow_prefix(self.workflows@, i + 1);
            }
            total = total + self.workflows[i].total_errors;
            i = i + 1;
        }
        proof {
            assert(self.workflows@.take(i as int) == self.workflows@);
        }
        total
    }
}

proof fn lemma_sum_workflow_prefix(w: Seq<WorkflowNode>, i: int)
    requires
        0 <= i <= w.len(),
    ensures
        sum_workflow_errors(w.take(i)) <= sum_workflow_errors(w),
    decreases w.len() - i,
{
    if i < w.len() {
        lemma_sum_workflow_prefix(w.drop_last(), i);
        assert(w.drop_last().take(i) == w.take(i));
    } else {
        assert(w.take(i) == w);
    }
}

impl Default for LogTree {
    fn default() -> (r: Self)
        ensures
            r.workflows@.len() == 0,
    {
        LogTree::new()
    }
}

} // verus!
