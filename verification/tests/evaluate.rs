use node_evaluate::bytes::BytesValue;
use node_evaluate::evaluate::{
    evaluate, Connecting, EvaluateRequest, EvaluateStep, JavaScriptEvaluation, JavaScriptStream,
    PoolReady, Pulling, Pump, PumpStep,
};
use node_evaluate::message::{
    EvalJavaScriptIncomingMessage, EvalJavaScriptOutgoingMessage, LoopResult,
};
use node_evaluate::path::{AssetIdent, FileSystemPath};
use node_evaluate::pool::{PoolRequest, RuntimeAsset};
use node_evaluate::pull::{PullEffect, Receiving};
use serde_json::Value as JsonValue;

fn path(text: &str) -> FileSystemPath {
    FileSystemPath::new(text.to_string())
}

fn request(args: Vec<u64>) -> EvaluateRequest {
    EvaluateRequest {
        pool: PoolRequest {
            context_path: path("/context"),
            module_asset: 11,
            cwd: path("/app"),
            env: 1,
            context: 2,
            intermediate_output_path: path("/out"),
            runtime_entries: None,
            additional_invalidation: 3,
            debug: false,
        },
        context_ident_for_issue: AssetIdent::new(path("/app/module.js")),
        args,
    }
}

/// Sets up a pool where everything succeeds.
fn ready(args: Vec<u64>) -> (PoolReady, u32) {
    let runtime = RuntimeAsset { asset: 22, path: path("/runtime/evaluate.ts") };
    let pending = evaluate(request(args));
    assert_eq!(pending.awaited(), 11);
    let pending = pending.module_file::<String>(Ok("module.js".to_string()), runtime).unwrap();
    let pending = pending.cwd::<&str, String>(Ok(Some("/disk/app"))).unwrap();
    let pending = pending.entrypoint::<String>(Ok(Some("/disk/out/module.js"))).unwrap();
    let pending = pending.entries::<String>(33, None).unwrap();
    let pending = pending.package_json::<String>(Ok(())).unwrap();
    let pending = pending.emitted::<String>(Ok(())).unwrap();
    let pending = pending.env::<String>(Ok(Vec::new()), None).unwrap();
    pending.invalidated::<u32, String>(5, Ok(())).unwrap().ready()
}

fn connecting(args: Vec<JsonValue>) -> Connecting {
    let handles: Vec<u64> = (0..args.len() as u64).collect();
    ready(handles).0.arguments::<String>(Ok(args)).unwrap()
}

fn pulling(args: Vec<JsonValue>) -> Pulling {
    connecting(args).connected::<u32, String>(Ok((7, 1))).unwrap().0
}

/// Where a file lies that the worker calls `a.js`, and what an error is about.
fn refers_to(pull: &dyn Fn() -> Receiving) -> (FileSystemPath, FileSystemPath, FileSystemPath) {
    let message =
        EvalJavaScriptIncomingMessage::<String>::FileDependency { path: "a.js".to_string() };
    let mut effects = pull().receive::<String, String>(Ok(message)).unwrap().effects;
    let file = match effects.remove(0) {
        PullEffect::ReadFile(file) => file,
        other => panic!("unexpected {:?}", other),
    };
    let message = EvalJavaScriptIncomingMessage::Error("boom".to_string());
    let mut effects = pull().receive::<String, String>(Ok(message)).unwrap().effects;
    match effects.remove(0) {
        PullEffect::ReportEvaluation(issue) => (file, issue.cwd.clone(), issue.context()),
        other => panic!("unexpected {:?}", other),
    }
}

fn one_off() -> Pulling {
    pulling(Vec::new())
}

fn with_args() -> Pulling {
    pulling(vec![JsonValue::Null])
}

fn bytes(text: &str) -> Result<BytesValue, String> {
    Ok(BytesValue::from_text(text))
}

fn first(pulling: Pulling, output: LoopResult<String>) -> EvaluateStep<String> {
    pulling.pulled::<String, String>(Ok(output)).unwrap()
}

fn stream(pulling: Pulling) -> (JavaScriptStream<String>, Pump) {
    match first(pulling, LoopResult::Value("one".to_string())) {
        EvaluateStep::Spawn { evaluation: JavaScriptEvaluation::Stream(stream), pump } => {
            (stream, pump)
        }
        other => panic!("unexpected {:?}", other),
    }
}

#[test]
fn text_becomes_its_utf8_bytes() {
    assert_eq!(BytesValue::from_text("aé").as_bytes(), &[0x61u8, 0xc3, 0xa9][..]);
    assert!(BytesValue::from_text("").as_bytes().is_empty());
}

#[test]
fn failed_pool_fails_the_evaluation() {
    let runtime = RuntimeAsset { asset: 22, path: path("/runtime/evaluate.ts") };
    let failed = evaluate(request(Vec::new())).module_file(Err("no pool"), runtime);
    assert_eq!(failed.err(), Some("no pool"));
}

#[test]
fn pool_and_arguments_belong_to_the_request() {
    let (ready, pool) = ready(vec![8, 9]);
    assert_eq!(pool, 5);
    assert_eq!(ready.awaited(), &[8, 9][..]);
}

#[test]
fn pulls_refer_to_the_request() {
    let expected = (path("/app").join("a.js"), path("/app"), path("/app/module.js"));
    let pulling = with_args();
    assert_eq!(refers_to(&|| pulling.pull()), expected);
    let (_, pump) = stream(pulling);
    assert_eq!(refers_to(&|| pump.pull()), expected);
}

#[test]
fn failed_arguments_fail_the_evaluation() {
    let (ready, _) = ready(vec![8]);
    assert_eq!(ready.arguments(Err("no arguments")).err(), Some("no arguments"));
}

#[test]
fn every_argument_is_sent_in_order() {
    let args = vec![JsonValue::from(1), JsonValue::from("two"), JsonValue::Null];
    let connecting = connecting(args.clone());
    let EvalJavaScriptOutgoingMessage::Evaluate { args: sent } = connecting.message();
    let sent: Vec<JsonValue> = sent.into_iter().cloned().collect();
    assert_eq!(sent, args);
}

#[test]
fn worker_is_handed_on() {
    let (_, operation) = connecting(Vec::new()).connected::<u32, String>(Ok((7, 3))).unwrap();
    assert_eq!(operation, 7);
}

#[test]
fn last_failure_to_connect_is_returned() {
    let failed = connecting(Vec::new()).connected::<u32, String>(Err(("busy".to_string(), 10)));
    assert_eq!(failed.err(), Some("busy".to_string()));
}

#[test]
fn end_without_value_is_empty() {
    match first(with_args(), LoopResult::End(None)) {
        EvaluateStep::Return(JavaScriptEvaluation::Empty) => {}
        other => panic!("unexpected {:?}", other),
    }
}

#[test]
fn end_with_value_is_single() {
    match first(with_args(), LoopResult::End(Some("v".to_string()))) {
        EvaluateStep::Return(JavaScriptEvaluation::Single(item)) => assert_eq!(item, bytes("v")),
        other => panic!("unexpected {:?}", other),
    }
}

#[test]
fn error_is_single() {
    match first(with_args(), LoopResult::Error("boom".to_string())) {
        EvaluateStep::Return(JavaScriptEvaluation::Single(item)) => {
            assert_eq!(item, Err("boom".to_string()))
        }
        other => panic!("unexpected {:?}", other),
    }
}

#[test]
fn process_of_a_one_off_evaluation_is_waited_for() {
    match first(one_off(), LoopResult::End(Some("v".to_string()))) {
        EvaluateStep::WaitOrKill(finishing) => match finishing.waited::<String>(Ok(())) {
            Ok(JavaScriptEvaluation::Single(item)) => assert_eq!(item, bytes("v")),
            other => panic!("unexpected {:?}", other),
        },
        other => panic!("unexpected {:?}", other),
    }
    match first(one_off(), LoopResult::End(None)) {
        EvaluateStep::WaitOrKill(finishing) => {
            assert_eq!(finishing.waited(Err("stuck")).err(), Some("stuck"))
        }
        other => panic!("unexpected {:?}", other),
    }
}

#[test]
fn immediate_error_of_a_one_off_evaluation_is_not_waited_for() {
    match first(one_off(), LoopResult::Error("boom".to_string())) {
        EvaluateStep::Return(JavaScriptEvaluation::Single(Err(error))) => {
            assert_eq!(error, "boom")
        }
        other => panic!("unexpected {:?}", other),
    }
}

#[test]
fn failed_pull_fails_the_evaluation() {
    let failed = one_off().pulled::<String, String>(Err("gone".to_string()));
    assert_eq!(failed.err(), Some("gone".to_string()));
}

#[test]
fn value_opens_a_stream() {
    let (stream, _) = stream(with_args());
    assert!(stream.is_open());
    assert_eq!(stream.items(), &[bytes("one")][..]);
}

#[test]
fn values_are_written_in_order_until_the_end() {
    let (mut stream, pump) = stream(with_args());
    let step = pump.write::<String, String>(&mut stream, Ok(LoopResult::Value("two".to_string())));
    assert_eq!(step, PumpStep::Pull);
    assert!(stream.is_open());
    let end = LoopResult::End(Some("three".to_string()));
    let step = pump.write::<String, String>(&mut stream, Ok(end));
    assert_eq!(step, PumpStep::Done);
    assert!(!stream.is_open());
    assert_eq!(stream.items(), &[bytes("one"), bytes("two"), bytes("three")][..]);
}

#[test]
fn stream_can_end_without_a_last_value() {
    let (mut stream, pump) = stream(with_args());
    let step = pump.write::<String, String>(&mut stream, Ok(LoopResult::End(None)));
    assert_eq!(step, PumpStep::Done);
    assert!(!stream.is_open());
    assert_eq!(stream.items(), &[bytes("one")][..]);
}

#[test]
fn error_closes_the_stream() {
    let (mut stream, pump) = stream(one_off());
    let error = LoopResult::Error("boom".to_string());
    let step = pump.write::<String, String>(&mut stream, Ok(error));
    assert_eq!(step, PumpStep::WaitOrKill);
    assert!(!stream.is_open());
    assert_eq!(stream.items(), &[bytes("one"), Err("boom".to_string())][..]);
}

#[test]
fn streaming_one_off_evaluation_waits_for_its_process_at_the_end() {
    let (mut stream, pump) = stream(one_off());
    let step = pump.write::<String, String>(&mut stream, Ok(LoopResult::Value("two".to_string())));
    assert_eq!(step, PumpStep::Pull);
    let step = pump.write::<String, String>(&mut stream, Ok(LoopResult::End(None)));
    assert_eq!(step, PumpStep::WaitOrKill);
}

#[test]
fn failed_pull_closes_the_stream() {
    let (mut stream, pump) = stream(one_off());
    let failed = Err(("worker gone".to_string(), 3));
    let step = pump.write::<String, u32>(&mut stream, failed);
    assert_eq!(step, PumpStep::Fail(3));
    assert!(!stream.is_open());
    assert_eq!(stream.items(), &[bytes("one"), Err("worker gone".to_string())][..]);
}
