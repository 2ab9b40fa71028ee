//! The build steps that bring the served client up to date, and what is
//! logged of their outcome.
//!
//! Running a tool is the host's work. The rebuild names the step to run,
//! takes its outcome, says what to log and names the next step. A step
//! that fails, or that cannot even be launched, does not keep the later
//! ones from running.

use crate::log::{Level, LogRecord};
use crate::scan::texts;
use vstd::prelude::*;
use vstd::string::*;

verus! {

/// One invocation of a build tool.
#[derive(Clone, Debug, PartialEq, Eq)]
pub struct BuildStep {
    /// The name under which the step is logged.
    pub name: String,
    pub command: String,
    pub args: Vec<String>,
    pub working_dir: String,
    /// Variables added to the tool's environment.
    pub env: Vec<(String, String)>,
}

/// A build step as plain text.
pub struct BuildStepView {
    pub name: Seq<char>,
    pub command: Seq<char>,
    pub args: Seq<Seq<char>>,
    pub working_dir: Seq<char>,
    pub env: Seq<(Seq<char>, Seq<char>)>,
}

impl View for BuildStep {
    type V = BuildStepView;

    open spec fn view(&self) -> BuildStepView {
        BuildStepView {
            name: self.name@,
            command: self.command@,
            args: texts(self.args@),
            working_dir: self.working_dir@,
            env: self.env@.map_values(|pair: (String, String)| (pair.0@, pair.1@)),
        }
    }
}

/// How a build step ended.
#[derive(Clone, Debug, PartialEq, Eq)]
pub enum BuildOutcome {
    /// The tool could not be launched.
    LaunchFailed { error: String },
    /// The tool ran to its end.
    Finished { success: bool, stdout: Vec<u8>, stderr: Vec<u8> },
}

/// The text that `String::from_utf8_lossy` makes of captured output.
pub uninterp spec fn utf8_lossy(bytes: Seq<u8>) -> Seq<char>;

/// Calls `String::from_utf8_lossy`. Trusted: the text is a function of the
/// bytes alone.
#[verifier::external_body]
fn lossy_text(bytes: &Vec<u8>) -> (text: String)
    ensures
        text@ == utf8_lossy(bytes@),
{
    String::from_utf8_lossy(bytes).into_owned()
}

/// The directory of the client sources, in which the tools run.
pub open spec fn client_dir() -> Seq<char> {
    "../client"@
}

/// The step that compiles the style sheet.
pub open spec fn css_step() -> BuildStepView {
    BuildStepView {
        name: "tailwind"@,
        command: "bun"@,
        args: seq!["tailwindcss"@, "-i"@, "input.css"@, "-o"@, "index.css"@],
        working_dir: client_dir(),
        env: seq![("NODE_ENV"@, "development"@)],
    }
}

/// The step that bundles the scripts.
pub open spec fn bundle_step() -> BuildStepView {
    BuildStepView {
        name: "vite"@,
        command: "bun"@,
        args: seq![
            "vite"@,
            "build"@,
            "--outDir"@,
            "../dist"@,
            "--emptyOutDir"@,
            "--minify"@,
            "--mode"@,
            "development"@,
        ],
        working_dir: client_dir(),
        env: seq![("NODE_ENV"@, "development"@)],
    }
}

/// The steps of a rebuild in their order: the style sheet comes before the
/// bundle, which may refer to it.
pub open spec fn rebuild_plan() -> Seq<BuildStepView> {
    seq![css_step(), bundle_step()]
}

/// What is logged before a step runs.
pub open spec fn announcement(name: Seq<char>) -> (Level, Seq<char>) {
    (Level::Info, "running "@ + name + "..."@)
}

/// What is logged of an outcome: the captured output at info level and the
/// captured errors at error level, each only where the tool wrote any,
/// whether or not the tool succeeded; of a tool that could not be launched,
/// the reason at error level.
pub open spec fn outcome_log(outcome: BuildOutcome) -> Seq<(Level, Seq<char>)> {
    match outcome {
        BuildOutcome::LaunchFailed { error } => seq![(Level::Error, error@)],
        BuildOutcome::Finished { success, stdout, stderr } => {
            let out = if stdout@.len() > 0 {
                seq![(Level::Info, utf8_lossy(stdout@))]
            } else {
                seq![]
            };
            let err = if stderr@.len() > 0 {
                seq![(Level::Error, utf8_lossy(stderr@))]
            } else {
                seq![]
            };
            out + err
        },
    }
}

/// The records of a list, each as its level and text.
pub open spec fn log_view(list: Seq<LogRecord>) -> Seq<(Level, Seq<char>)> {
    list.map_values(|r: LogRecord| r@)
}

/// What is logged once a step has ended and before the step at `next`
/// runs, if there is one.
pub open spec fn log_between(outcome: Option<BuildOutcome>, next: int) -> Seq<(Level, Seq<char>)> {
    let of_outcome = match outcome {
        Some(outcome) => outcome_log(outcome),
        None => seq![],
    };
    if 0 <= next < rebuild_plan().len() {
        of_outcome.push(announcement(rebuild_plan()[next].name))
    } else {
        of_outcome
    }
}

/// The environment of both steps.
fn build_env() -> (env: Vec<(String, String)>)
    ensures
        env@.map_values(|pair: (String, String)| (pair.0@, pair.1@)) == seq![
            ("NODE_ENV"@, "development"@),
        ],
{
    let env = vec![("NODE_ENV".to_owned(), "development".to_owned())];
    assert(env@.map_values(|pair: (String, String)| (pair.0@, pair.1@)) =~= seq![
        ("NODE_ENV"@, "development"@),
    ]);
    env
}

/// The steps of a rebuild, in the order in which they run.
pub fn rebuild_steps() -> (steps: Vec<BuildStep>)
    ensures
        steps@.map_values(|s: BuildStep| s@) == rebuild_plan(),
{
    let css_args = vec![
        "tailwindcss".to_owned(),
        "-i".to_owned(),
        "input.css".to_owned(),
        "-o".to_owned(),
        "index.css".to_owned(),
    ];
    assert(texts(css_args@) =~= css_step().args);
    let css = BuildStep {
        name: "tailwind".to_owned(),
        command: "bun".to_owned(),
        args: css_args,
        working_dir: "../client".to_owned(),
        env: build_env(),
    };
    let bundle_args = vec![
        "vite".to_owned(),
        "build".to_owned(),
        "--outDir".to_owned(),
        "../dist".to_owned(),
        "--emptyOutDir".to_owned(),
        "--minify".to_owned(),
        "--mode".to_owned(),
        "development".to_owned(),
    ];
    assert(texts(bundle_args@) =~= bundle_step().args);
    let bundle = BuildStep {
        name: "vite".to_owned(),
        command: "bun".to_owned(),
        args: bundle_args,
        working_dir: "../client".to_owned(),
        env: build_env(),
    };
    assert(css@ == css_step());
    assert(bundle@ == bundle_step());
    let steps = vec![css, bundle];
    assert(steps@.map_values(|s: BuildStep| s@) =~= rebuild_plan());
    steps
}

/// The record that announces a step.
pub fn announce(step: &BuildStep) -> (record: LogRecord)
    ensures
        record@ == announcement(step.name@),
{
    let mut text = "running ".to_owned();
    text.append(step.name.as_str());
    text.append("...");
    LogRecord::info(text)
}

/// The records for what a tool wrote: its output at info level, then its
/// errors at error level, each where there is any.
pub fn output_records(output: Option<String>, errors: Option<String>) -> (log: Vec<LogRecord>)
    ensures
        log_view(log@) == (match output {
            Some(text) => seq![(Level::Info, text@)],
            None => seq![],
        }) + (match errors {
            Some(text) => seq![(Level::Error, text@)],
            None => seq![],
        }),
{
    let mut log: Vec<LogRecord> = Vec::new();
    if let Some(text) = output {
        log.push(LogRecord::info(text));
    }
    if let Some(text) = errors {
        log.push(LogRecord::error(text));
    }
    assert(log_view(log@) =~= (match output {
        Some(text) => seq![(Level::Info, text@)],
        None => seq![],
    }) + (match errors {
        Some(text) => seq![(Level::Error, text@)],
        None => seq![],
    }));
    log
}

/// The text of a captured stream, or `None` where the tool wrote nothing
/// to it.
fn captured(bytes: &Vec<u8>) -> (text: Option<String>)
    ensures
        text matches Some(t) ==> bytes@.len() > 0 && t@ == utf8_lossy(bytes@),
        text.is_none() ==> bytes@.len() == 0,
{
    if bytes.len() > 0 {
        Some(lossy_text(bytes))
    } else {
        None
    }
}

/// The records to log of the outcome of a step.
pub fn report(outcome: &BuildOutcome) -> (log: Vec<LogRecord>)
    ensures
        log_view(log@) == outcome_log(*outcome),
{
    match outcome {
        BuildOutcome::LaunchFailed { error } => {
            let log = vec![LogRecord::error(error.clone())];
            assert(log_view(log@) =~= outcome_log(*outcome));
            log
        },
        BuildOutcome::Finished { success, stdout, stderr } => {
            let log = output_records(captured(stdout), captured(stderr));
            assert(log_view(log@) =~= outcome_log(*outcome));
            log
        },
    }
}

/// A rebuild between two of its steps.
pub struct Rebuild {
    next: usize,
}

/// What a rebuild asks of its host.
pub enum RebuildStep {
    /// Write `log`, run `step` to its end and hand the outcome to
    /// `rebuild`.
    Run { rebuild: Rebuild, step: BuildStep, log: Vec<LogRecord> },
    /// Write `log`; the rebuild is over.
    Done { log: Vec<LogRecord> },
}

impl Rebuild {
    /// The place in the plan of the step that runs after the one in hand.
    pub closed spec fn next(&self) -> int {
        self.next as int
    }

    /// Goes on to the step at `next`, if the plan has one, once `log` is
    /// written.
    fn advance(next: usize, log: Vec<LogRecord>) -> (step: RebuildStep)
        ensures
            step_is(step, next as int, log_view(log@)),
    {
        let mut steps = rebuild_steps();
        let mut log = log;
        let ghost before = log@;
        if next < steps.len() {
            assert(steps@.map_values(|s: BuildStep| s@)[next as int] == steps@[next as int]@);
            let wanted = if next == 0 {
                steps.swap_remove(0)
            } else {
                steps.swap_remove(1)
            };
            let record = announce(&wanted);
            log.push(record);
            assert(log_view(log@) =~= log_view(before).push(record@));
            RebuildStep::Run { rebuild: Rebuild { next: next + 1 }, step: wanted, log }
        } else {
            RebuildStep::Done { log }
        }
    }

    /// Takes the outcome of the step that was asked for and says how the
    /// rebuild goes on: with the next step of the plan whatever the outcome
    /// was, or to its end after the last.
    pub fn resume(self, outcome: BuildOutcome) -> (step: RebuildStep)
        ensures
            step_is(step, self.next(), outcome_log(outcome)),
    {
        let log = report(&outcome);
        Rebuild::advance(self.next, log)
    }
}

/// `step` asks for the step of the plan at `next`, after the records
/// `said` and the announcement of that step; or, where the plan has no such
/// step, ends the rebuild after the records `said`.
pub open spec fn step_is(step: RebuildStep, next: int, said: Seq<(Level, Seq<char>)>) -> bool {
    if 0 <= next < rebuild_plan().len() {
        step matches RebuildStep::Run { rebuild, step, log } && {
            &&& step@ == rebuild_plan()[next]
            &&& rebuild.next() == next + 1
            &&& log_view(log@) == said.push(announcement(rebuild_plan()[next].name))
        }
    } else {
        step matches RebuildStep::Done { log } && log_view(log@) == said
    }
}

/// Starts a rebuild: asks for the first step of the plan.
pub fn recompile() -> (step: RebuildStep)
    ensures
        step_is(step, 0, seq![]),
{
    let step = Rebuild::advance(0, Vec::new());
    assert(log_view(Seq::<LogRecord>::empty()) =~= seq![]);
    step
}

} // verus!
