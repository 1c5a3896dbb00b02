use node_evaluate::message::{EvalJavaScriptIncomingMessage, IssueSeverity, LoopResult};
use node_evaluate::path::{AssetIdent, FileSystemPath};
use node_evaluate::pull::{
    pull_operation, Awaiting, Dependency, PullEffect, PullStep, Receiving, Received,
};

type Message = EvalJavaScriptIncomingMessage<String>;

fn path(text: &str) -> FileSystemPath {
    FileSystemPath::new(text.to_string())
}

fn start() -> Receiving {
    pull_operation(path("/app"), AssetIdent::new(path("/app/module.js")))
}

fn file(name: &str) -> Message {
    EvalJavaScriptIncomingMessage::FileDependency { path: name.to_string() }
}

fn dir(name: &str, glob: &str) -> Message {
    EvalJavaScriptIncomingMessage::DirDependency { path: name.to_string(), glob: glob.to_string() }
}

fn value(data: &str) -> Message {
    EvalJavaScriptIncomingMessage::Value { data: data.to_string() }
}

fn receive(receiving: Receiving, message: Message) -> Received<String> {
    receiving.receive::<String, String>(Ok(message)).unwrap()
}

fn receiving(step: PullStep<String>) -> Receiving {
    match step {
        PullStep::Receive(receiving) => receiving,
        other => panic!("unexpected {:?}", other),
    }
}

fn awaiting(step: PullStep<String>) -> Awaiting<String> {
    match step {
        PullStep::Await(awaiting) => awaiting,
        other => panic!("unexpected {:?}", other),
    }
}

fn returned(step: PullStep<String>) -> LoopResult<String> {
    match step {
        PullStep::Return(output) => output,
        other => panic!("unexpected {:?}", other),
    }
}

fn is_file(dependency: &Dependency, name: &str) -> bool {
    matches!(dependency, Dependency::File(p) if *p == path("/app").join(name))
}

#[test]
fn paths_record_their_joins() {
    let joined = path("/app").join("a").join("../b");
    assert_eq!(joined.base(), "/app");
    assert_eq!(joined.joins(), &["a".to_string(), "../b".to_string()][..]);
    assert_eq!(joined.clone(), joined);
    assert_eq!(AssetIdent::new(joined.clone()).clone().path(), joined);
    assert!(path("/app").joins().is_empty());
}

#[test]
fn value_ends_the_pulling() {
    let received = receive(start(), value("1"));
    assert!(received.effects.is_empty());
    assert_eq!(returned(received.next), LoopResult::Value("1".to_string()));
}

#[test]
fn end_ends_the_pulling() {
    let with = EvalJavaScriptIncomingMessage::End { data: Some("2".to_string()) };
    let received = receive(start(), with);
    assert!(received.effects.is_empty());
    assert_eq!(returned(received.next), LoopResult::End(Some("2".to_string())));
    let without = EvalJavaScriptIncomingMessage::End { data: None };
    assert_eq!(returned(receive(start(), without).next), LoopResult::End(None));
}

#[test]
fn error_is_reported_and_bars_the_worker() {
    let received = receive(start(), EvalJavaScriptIncomingMessage::Error("boom".to_string()));
    assert_eq!(received.effects.len(), 2);
    match &received.effects[0] {
        PullEffect::ReportEvaluation(issue) => {
            assert_eq!(issue.error, "boom");
            assert_eq!(issue.cwd, path("/app"));
            assert_eq!(issue.context_ident.path(), path("/app/module.js"));
        }
        other => panic!("unexpected {:?}", other),
    }
    assert!(matches!(received.effects[1], PullEffect::DisallowReuse));
    assert_eq!(returned(received.next), LoopResult::Error("boom".to_string()));
}

#[test]
fn emitted_error_is_reported_and_pulling_goes_on() {
    let message = EvalJavaScriptIncomingMessage::EmittedError {
        severity: IssueSeverity::Hint,
        error: "careful".to_string(),
    };
    let received = receive(start(), message);
    assert_eq!(received.effects.len(), 1);
    match &received.effects[0] {
        PullEffect::ReportEmittedError(issue) => {
            assert_eq!(issue.severity, IssueSeverity::Hint);
            assert_eq!(issue.error, "careful");
            assert_eq!(issue.context, path("/app/module.js"));
            assert_eq!(issue.cwd, path("/app"));
        }
        other => panic!("unexpected {:?}", other),
    }
    receiving(received.next);
}

#[test]
fn build_dependency_is_reported_and_not_awaited() {
    let message = EvalJavaScriptIncomingMessage::BuildDependency { path: "config.js".to_string() };
    let received = receive(start(), message);
    assert_eq!(received.effects.len(), 1);
    match &received.effects[0] {
        PullEffect::ReportBuildDependency(issue) => {
            assert_eq!(issue.path, path("/app").join("config.js"));
            assert_eq!(issue.context_ident.path(), path("/app/module.js"));
        }
        other => panic!("unexpected {:?}", other),
    }
    let next = receiving(received.next);
    assert_eq!(returned(receive(next, value("3")).next), LoopResult::Value("3".to_string()));
}

#[test]
fn dependencies_are_read_at_once_and_awaited_files_first() {
    let received = receive(start(), dir("pages", "*.js"));
    match &received.effects[..] {
        [PullEffect::ReadGlob(request)] => {
            assert_eq!(request.path, path("/app").join("pages"));
            assert_eq!(request.glob, "*.js");
            assert!(!request.dot_files);
        }
        other => panic!("unexpected {:?}", other),
    }
    let received = receive(receiving(received.next), file("a"));
    match &received.effects[..] {
        [PullEffect::ReadFile(p)] => assert_eq!(*p, path("/app").join("a")),
        other => panic!("unexpected {:?}", other),
    }
    let received = receive(receiving(received.next), file("b"));
    let received = receive(receiving(received.next), value("4"));

    let step = awaiting(received.next);
    assert!(is_file(step.current(), "a"));
    let step = awaiting(step.resolve::<String>(Ok(())).unwrap());
    assert!(is_file(step.current(), "b"));
    let step = awaiting(step.resolve::<String>(Ok(())).unwrap());
    match step.current() {
        Dependency::Dir(request) => assert_eq!(request.glob, "*.js"),
        other => panic!("unexpected {:?}", other),
    }
    let step = step.resolve::<String>(Ok(())).unwrap();
    assert_eq!(returned(step), LoopResult::Value("4".to_string()));
}

#[test]
fn failed_read_wins_over_the_output() {
    let received = receive(start(), file("a"));
    let received = receive(
        receiving(received.next),
        EvalJavaScriptIncomingMessage::Error("boom".to_string()),
    );
    let failed = awaiting(received.next).resolve(Err("unreadable".to_string()));
    assert_eq!(failed.err(), Some("unreadable".to_string()));
}

#[test]
fn failed_receive_ends_the_pulling() {
    let received = receive(start(), file("a"));
    let failed = receiving(received.next).receive::<String, String>(Err("gone".to_string()));
    assert_eq!(failed.err(), Some("gone".to_string()));
}

#[test]
fn only_errors_bar_the_worker() {
    let messages: Vec<Message> = vec![
        file("a"),
        dir("b", "**"),
        EvalJavaScriptIncomingMessage::BuildDependency { path: "c".to_string() },
        EvalJavaScriptIncomingMessage::EmittedError {
            severity: IssueSeverity::Error,
            error: "e".to_string(),
        },
        value("1"),
        EvalJavaScriptIncomingMessage::End { data: None },
    ];
    for message in messages {
        let received = receive(start(), message);
        assert!(!received.effects.iter().any(|e| matches!(e, PullEffect::DisallowReuse)));
    }
}
