use server::log::{Level, LogRecord};
use server::rebuild::BuildStep;
use server::watch::{Recompiler, StreamEvent, StreamId, StreamKind};

fn strings(list: &[&str]) -> Vec<String> {
    list.iter().map(|s| s.to_string()).collect()
}

fn line(text: &str) -> StreamEvent {
    StreamEvent::Line(text.to_string())
}

const CSS_OUT: StreamId = StreamId { tool: 0, kind: StreamKind::Output };
const CSS_ERR: StreamId = StreamId { tool: 0, kind: StreamKind::Errors };
const JS_OUT: StreamId = StreamId { tool: 1, kind: StreamKind::Output };
const JS_ERR: StreamId = StreamId { tool: 1, kind: StreamKind::Errors };

#[test]
fn supervisor_names_the_watch_commands() {
    let supervisor = Recompiler::start();
    let wanted = vec![
        BuildStep {
            name: "tailwind".to_string(),
            command: "bun".to_string(),
            args: strings(&["tailwind", "-i", "input.css", "-o", "../dist/index.css", "--watch"]),
            working_dir: "../client".to_string(),
            env: vec![],
        },
        BuildStep {
            name: "build".to_string(),
            command: "bun".to_string(),
            args: strings(&[
                "build",
                "src/index.tsx",
                "--outfile",
                "../dist/index.js",
                "--minify",
                "--watch",
                "--no-clear-screen",
            ]),
            working_dir: "../client".to_string(),
            env: vec![],
        },
    ];
    assert_eq!(supervisor.commands(), &wanted);
}

#[test]
fn supervisor_starts_with_four_live_streams() {
    let supervisor = Recompiler::start();
    for id in [CSS_OUT, CSS_ERR, JS_OUT, JS_ERR] {
        assert!(supervisor.is_live(id));
    }
    assert!(!supervisor.is_live(StreamId { tool: 2, kind: StreamKind::Output }));
    assert!(!supervisor.finished());
}

#[test]
fn error_lines_of_two_tools_are_logged_in_order_under_their_labels() {
    let mut supervisor = Recompiler::start();
    let mut log = Vec::new();
    for (id, event) in [(CSS_ERR, line("css broke")), (JS_ERR, line("js broke"))] {
        if let Some(record) = supervisor.on_event(id, event) {
            log.push(record);
        }
    }
    assert_eq!(
        log,
        vec![
            LogRecord { level: Level::Error, text: "tailwind(err): css broke".to_string() },
            LogRecord { level: Level::Error, text: "build(err): js broke".to_string() },
        ]
    );
}

#[test]
fn output_lines_are_logged_at_info_level() {
    let mut supervisor = Recompiler::start();
    assert_eq!(
        supervisor.on_event(CSS_OUT, line("Done in 12ms.")),
        Some(LogRecord { level: Level::Info, text: "tailwind(out): Done in 12ms.".to_string() })
    );
    assert_eq!(
        supervisor.on_event(JS_OUT, line("  index.js  1.2 KB")),
        Some(LogRecord { level: Level::Info, text: "build(out):   index.js  1.2 KB".to_string() })
    );
}

#[test]
fn empty_lines_are_not_logged() {
    let mut supervisor = Recompiler::start();
    assert_eq!(supervisor.on_event(CSS_OUT, line("")), None);
    assert_eq!(supervisor.on_event(JS_ERR, line("")), None);
    assert!(supervisor.is_live(CSS_OUT));
    assert!(supervisor.is_live(JS_ERR));
}

#[test]
fn every_line_is_logged_once() {
    let mut supervisor = Recompiler::start();
    let mut log = Vec::new();
    let events = [
        (JS_OUT, "a"),
        (CSS_ERR, "b"),
        (JS_OUT, "a"),
        (CSS_OUT, "c"),
        (JS_ERR, "d"),
    ];
    for (id, text) in events {
        log.extend(supervisor.on_event(id, line(text)));
    }
    let texts: Vec<&str> = log.iter().map(|r| r.text.as_str()).collect();
    assert_eq!(
        texts,
        vec!["build(out): a", "tailwind(err): b", "build(out): a", "tailwind(out): c", "build(err): d"]
    );
}

#[test]
fn ended_stream_leaves_the_others_alone() {
    let mut supervisor = Recompiler::start();
    assert_eq!(supervisor.on_event(CSS_OUT, StreamEvent::End), None);
    assert!(!supervisor.is_live(CSS_OUT));
    assert!(supervisor.is_live(CSS_ERR));
    assert!(supervisor.is_live(JS_OUT));
    assert!(supervisor.is_live(JS_ERR));
    assert_eq!(supervisor.on_event(CSS_OUT, line("late")), None);
    assert_eq!(
        supervisor.on_event(CSS_ERR, line("still here")),
        Some(LogRecord { level: Level::Error, text: "tailwind(err): still here".to_string() })
    );
}

#[test]
fn failed_read_is_logged_and_drops_its_stream() {
    let mut supervisor = Recompiler::start();
    assert_eq!(
        supervisor.on_event(JS_ERR, StreamEvent::Failed("stream did not contain valid UTF-8".to_string())),
        Some(LogRecord { level: Level::Error, text: "stream did not contain valid UTF-8".to_string() })
    );
    assert!(!supervisor.is_live(JS_ERR));
    assert!(supervisor.is_live(JS_OUT));
    assert_eq!(supervisor.on_event(JS_ERR, StreamEvent::Failed("again".to_string())), None);
}

#[test]
fn event_of_an_unknown_tool_is_ignored() {
    let mut supervisor = Recompiler::start();
    let unknown = StreamId { tool: 7, kind: StreamKind::Errors };
    assert_eq!(supervisor.on_event(unknown, line("x")), None);
    assert_eq!(supervisor.on_event(unknown, StreamEvent::End), None);
    assert!(!supervisor.finished());
}

#[test]
fn supervisor_is_finished_when_every_stream_has_ended() {
    let mut supervisor = Recompiler::start();
    for id in [CSS_OUT, JS_ERR, CSS_ERR] {
        supervisor.on_event(id, StreamEvent::End);
        assert!(!supervisor.finished());
    }
    supervisor.on_event(JS_OUT, StreamEvent::Failed("gone".to_string()));
    assert!(supervisor.finished());
}

#[test]
fn shutdown_ends_every_tool() {
    let mut supervisor = Recompiler::start();
    assert_eq!(supervisor.shutdown(), 2);
    assert!(supervisor.finished());
    assert_eq!(supervisor.on_event(CSS_OUT, line("late")), None);
    assert_eq!(supervisor.commands().len(), 2);
}
