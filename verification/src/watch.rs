//! The watch-mode supervisor: the build tools run for as long as the
//! server does, each in its own watch mode, and what they write is brought
//! together into the log.
//!
//! Starting the tools, waiting on their streams and ending them is the
//! host's work. The supervisor names the tools to start, keeps the set of
//! streams that are still read, and decides what is logged of each line.

use crate::log::{Level, LogRecord};
use crate::rebuild::{client_dir, BuildStep, BuildStepView};
use crate::scan::texts;
use vstd::prelude::*;
use vstd::string::*;

verus! {

/// Which of the two streams of a tool.
#[derive(Clone, Copy, Debug, PartialEq, Eq, Structural)]
pub enum StreamKind {
    /// Standard output.
    Output,
    /// Standard error.
    Errors,
}

/// One stream of one tool; `tool` counts the tools in the order in which
/// they are started.
#[derive(Clone, Copy, Debug, PartialEq, Eq, Structural)]
pub struct StreamId {
    pub tool: usize,
    pub kind: StreamKind,
}

/// What a read of a stream gave.
#[derive(Clone, Debug, PartialEq, Eq)]
pub enum StreamEvent {
    /// A complete line, without its line end.
    Line(String),
    /// The stream has ended.
    End,
    /// The read failed.
    Failed(String),
}

/// The tool that compiles the style sheet whenever its sources change.
pub open spec fn css_watch() -> BuildStepView {
    BuildStepView {
        name: "tailwind"@,
        command: "bun"@,
        args: seq!["tailwind"@, "-i"@, "input.css"@, "-o"@, "../dist/index.css"@, "--watch"@],
        working_dir: client_dir(),
        env: seq![],
    }
}

/// The tool that bundles the scripts whenever their sources change.
pub open spec fn bundle_watch() -> BuildStepView {
    BuildStepView {
        name: "build"@,
        command: "bun"@,
        args: seq![
            "build"@,
            "src/index.tsx"@,
            "--outfile"@,
            "../dist/index.js"@,
            "--minify"@,
            "--watch"@,
            "--no-clear-screen"@,
        ],
        working_dir: client_dir(),
        env: seq![],
    }
}

/// The tools that the supervisor runs, in the order in which they are
/// started.
pub open spec fn watch_plan() -> Seq<BuildStepView> {
    seq![css_watch(), bundle_watch()]
}

/// The label that tells where a line came from.
pub open spec fn stream_label(name: Seq<char>, kind: StreamKind) -> Seq<char> {
    match kind {
        StreamKind::Output => name + "(out)"@,
        StreamKind::Errors => name + "(err)"@,
    }
}

/// The level at which the lines of a stream are logged.
pub open spec fn stream_level(kind: StreamKind) -> Level {
    match kind {
        StreamKind::Output => Level::Info,
        StreamKind::Errors => Level::Error,
    }
}

/// The streams that are still read, for each tool.
pub struct LiveStreams {
    pub out: Seq<bool>,
    pub err: Seq<bool>,
}

impl LiveStreams {
    /// Whether the stream `id` is still read.
    pub open spec fn contains(self, id: StreamId) -> bool {
        match id.kind {
            StreamKind::Output => id.tool < self.out.len() && self.out[id.tool as int],
            StreamKind::Errors => id.tool < self.err.len() && self.err[id.tool as int],
        }
    }

    /// The streams without the stream `id`.
    pub open spec fn remove(self, id: StreamId) -> LiveStreams {
        match id.kind {
            StreamKind::Output => LiveStreams { out: self.out.update(id.tool as int, false), ..self },
            StreamKind::Errors => LiveStreams { err: self.err.update(id.tool as int, false), ..self },
        }
    }
}

/// The streams that are read after an event on the stream `id`: a stream
/// that ends, or whose read fails, leaves the set; the others stay.
pub open spec fn live_after(live: LiveStreams, id: StreamId, event: StreamEvent) -> LiveStreams {
    if live.contains(id) && !(event is Line) {
        live.remove(id)
    } else {
        live
    }
}

/// What is logged of an event on the stream `id` of the tool called
/// `name`: a line that is not empty, under the label of its stream and at
/// the level of its stream; a failed read, at error level. Nothing is
/// logged of a stream that is no longer read.
pub open spec fn event_log(
    live: LiveStreams,
    name: Seq<char>,
    id: StreamId,
    event: StreamEvent,
) -> Option<(Level, Seq<char>)> {
    if !live.contains(id) {
        None
    } else {
        match event {
            StreamEvent::Line(line) => if line@.len() == 0 {
                None
            } else {
                Some((stream_level(id.kind), stream_label(name, id.kind) + ": "@ + line@))
            },
            StreamEvent::End => None,
            StreamEvent::Failed(error) => Some((Level::Error, error@)),
        }
    }
}

/// The environment-free step of a watch-mode tool.
fn watch_step(name: &str, args: Vec<String>) -> (step: BuildStep)
    ensures
        step@ == (BuildStepView {
            name: name@,
            command: "bun"@,
            args: texts(args@),
            working_dir: client_dir(),
            env: seq![],
        }),
{
    let step = BuildStep {
        name: name.to_owned(),
        command: "bun".to_owned(),
        args,
        working_dir: "../client".to_owned(),
        env: Vec::new(),
    };
    assert(step@.env =~= seq![]);
    step
}

/// The supervisor of the watch-mode tools.
pub struct Recompiler {
    tools: Vec<BuildStep>,
    out_live: Vec<bool>,
    err_live: Vec<bool>,
}

impl Recompiler {
    /// The validity of a supervisor: it keeps both streams of each tool.
    pub closed spec fn wf(&self) -> bool {
        self.out_live@.len() == self.tools@.len() && self.err_live@.len() == self.tools@.len()
    }

    /// The tools, in the order in which they are started.
    pub closed spec fn plan(&self) -> Seq<BuildStepView> {
        self.tools@.map_values(|s: BuildStep| s@)
    }

    /// The streams that are still read.
    pub closed spec fn live(&self) -> LiveStreams {
        LiveStreams { out: self.out_live@, err: self.err_live@ }
    }

    /// The supervisor as the server starts: both streams of both tools are
    /// read.
    pub fn start() -> (supervisor: Recompiler)
        ensures
            supervisor.wf(),
            supervisor.plan() == watch_plan(),
            supervisor.live() == (LiveStreams { out: seq![true, true], err: seq![true, true] }),
    {
        let css_args = vec![
            "tailwind".to_owned(),
            "-i".to_owned(),
            "input.css".to_owned(),
            "-o".to_owned(),
            "../dist/index.css".to_owned(),
            "--watch".to_owned(),
        ];
        assert(texts(css_args@) =~= css_watch().args);
        let bundle_args = vec![
            "build".to_owned(),
            "src/index.tsx".to_owned(),
            "--outfile".to_owned(),
            "../dist/index.js".to_owned(),
            "--minify".to_owned(),
            "--watch".to_owned(),
            "--no-clear-screen".to_owned(),
        ];
        assert(texts(bundle_args@) =~= bundle_watch().args);
        let tools = vec![watch_step("tailwind", css_args), watch_step("build", bundle_args)];
        assert(tools@.map_values(|s: BuildStep| s@) =~= watch_plan());
        let supervisor = Recompiler { tools, out_live: vec![true, true], err_live: vec![true, true] };
        assert(supervisor.out_live@ =~= seq![true, true]);
        assert(supervisor.err_live@ =~= seq![true, true]);
        supervisor
    }

    /// The tools to start, each with its output and its errors piped to the
    /// supervisor, and each to be ended with the supervisor.
    pub fn commands(&self) -> (tools: &Vec<BuildStep>)
        ensures
            tools@.map_values(|s: BuildStep| s@) == self.plan(),
    {
        &self.tools
    }

    /// Whether the stream `id` is still read.
    pub fn is_live(&self, id: StreamId) -> (r: bool)
        requires
            self.wf(),
        ensures
            r == self.live().contains(id),
    {
        if id.tool < self.tools.len() {
            match id.kind {
                StreamKind::Output => self.out_live[id.tool],
                StreamKind::Errors => self.err_live[id.tool],
            }
        } else {
            false
        }
    }

    /// Whether no stream is read any more: the supervisor then has nothing
    /// left to wait for.
    pub fn finished(&self) -> (r: bool)
        requires
            self.wf(),
        ensures
            r == forall|id: StreamId| !self.live().contains(id),
    {
        let mut i: usize = 0;
        while i < self.tools.len()
            invariant
                self.wf(),
                i <= self.tools@.len(),
                forall|k: int| 0 <= k < i ==> !self.out_live@[k] && !self.err_live@[k],
            decreases self.tools@.len() - i,
        {
            if self.out_live[i] {
                assert(self.live().contains(StreamId { tool: i, kind: StreamKind::Output }));
                return false;
            }
            if self.err_live[i] {
                assert(self.live().contains(StreamId { tool: i, kind: StreamKind::Errors }));
                return false;
            }
            i = i + 1;
        }
        true
    }

    /// Takes what a read of the stream `id` gave, and says what to log of
    /// it. A stream that has ended, or whose read has failed, is read no
    /// more; that changes nothing for the other streams.
    pub fn on_event(&mut self, id: StreamId, event: StreamEvent) -> (record: Option<LogRecord>)
        requires
            old(self).wf(),
        ensures
            final(self).wf(),
            final(self).plan() == old(self).plan(),
            final(self).live() == live_after(old(self).live(), id, event),
            id.tool < old(self).plan().len() ==> (match record {
                Some(r) => Some(r@),
                None => None,
            }) == event_log(old(self).live(), old(self).plan()[id.tool as int].name, id, event),
            id.tool >= old(self).plan().len() ==> record.is_none(),
    {
        if !self.is_live(id) {
            return None;
        }
        match event {
            StreamEvent::Line(line) => {
                if line.as_str().is_empty() {
                    None
                } else {
                    let mut text = self.tools[id.tool].name.clone();
                    match id.kind {
                        StreamKind::Output => text.append("(out)"),
                        StreamKind::Errors => text.append("(err)"),
                    }
                    text.append(": ");
                    text.append(line.as_str());
                    let level = match id.kind {
                        StreamKind::Output => Level::Info,
                        StreamKind::Errors => Level::Error,
                    };
                    Some(LogRecord { level, text })
                }
            },
            StreamEvent::End => {
                self.drop_stream(id);
                None
            },
            StreamEvent::Failed(error) => {
                self.drop_stream(id);
                Some(LogRecord::error(error))
            },
        }
    }

    /// Reads the stream `id` no more.
    fn drop_stream(&mut self, id: StreamId)
        requires
            old(self).wf(),
            old(self).live().contains(id),
        ensures
            final(self).wf(),
            final(self).plan() == old(self).plan(),
            final(self).live() == old(self).live().remove(id),
    {
        match id.kind {
            StreamKind::Output => self.out_live.set(id.tool, false),
            StreamKind::Errors => self.err_live.set(id.tool, false),
        }
    }

    /// The teardown of the supervisor: no stream is read any more, and
    /// every tool is to be ended. Gives the number of tools to end, which
    /// are those from 0 up to that number.
    pub fn shutdown(&mut self) -> (tools: usize)
        requires
            old(self).wf(),
        ensures
            final(self).wf(),
            final(self).plan() == old(self).plan(),
            tools == old(self).plan().len(),
            final(self).live().out == Seq::new(tools as nat, |i: int| false),
            final(self).live().err == Seq::new(tools as nat, |i: int| false),
    {
        let n = self.tools.len();
        let mut i: usize = 0;
        while i < n
            invariant
                n == self.tools@.len(),
                self.tools == old(self).tools,
                self.out_live@.len() == n,
                self.err_live@.len() == n,
                i <= n,
                forall|k: int| 0 <= k < i ==> !self.out_live@[k] && !self.err_live@[k],
            decreases n - i,
        {
            self.out_live.set(i, false);
            self.err_live.set(i, false);
            i = i + 1;
        }
        assert(self.out_live@ =~= Seq::new(n as nat, |i: int| false));
        assert(self.err_live@ =~= Seq::new(n as nat, |i: int| false));
        n
    }
}

} // verus!
