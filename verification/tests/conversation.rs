use node_evaluate::bytes::BytesValue;
use node_evaluate::evaluate::{
    evaluate, EvaluateRequest, EvaluateStep, JavaScriptEvaluation, PumpStep,
};
use node_evaluate::message::{EvalJavaScriptIncomingMessage, IssueSeverity, LoopResult};
use node_evaluate::path::{AssetIdent, FileSystemPath};
use node_evaluate::pool::{PoolRequest, RuntimeAsset};
use node_evaluate::pull::{PullStep, Receiving};

type Message = EvalJavaScriptIncomingMessage<String>;
type Item = Result<BytesValue, String>;

fn path(text: &str) -> FileSystemPath {
    FileSystemPath::new(text.to_string())
}

/// Pulls the next result; every dependency can be read.
fn pull(
    receiving: Receiving,
    messages: &mut std::vec::IntoIter<Message>,
) -> Result<LoopResult<String>, String> {
    let mut step = PullStep::Receive(receiving);
    loop {
        step = match step {
            PullStep::Receive(receiving) => {
                let message = messages.next().ok_or("gone".to_string());
                receiving.receive::<String, String>(message)?.next
            }
            PullStep::Await(awaiting) => awaiting.resolve::<String>(Ok(()))?,
            PullStep::Return(output) => return Ok(output),
        };
    }
}

fn request() -> EvaluateRequest {
    EvaluateRequest {
        pool: PoolRequest {
            context_path: path("/context"),
            module_asset: 11,
            cwd: path("/app"),
            env: 1,
            context: 2,
            intermediate_output_path: path("/out"),
            runtime_entries: Some(4),
            additional_invalidation: 3,
            debug: false,
        },
        context_ident_for_issue: AssetIdent::new(path("/app/module.js")),
        args: vec![8],
    }
}

/// Runs an evaluation with one argument on what a worker sends.
fn converse(messages: Vec<Message>) -> Result<JavaScriptEvaluation<String>, String> {
    let mut messages = messages.into_iter();
    let runtime = RuntimeAsset { asset: 22, path: path("/runtime/evaluate.ts") };
    let pending = evaluate(request()).module_file::<String>(Ok("m.js".to_string()), runtime)?;
    let pending = pending.cwd::<&str, String>(Ok(Some("/disk/app")))?;
    let pending = pending.entrypoint::<String>(Ok(Some("/disk/out/m.js")))?;
    let pending = pending.entries::<String>(33, Some(Ok(vec![44])))?;
    let pending = pending.package_json::<String>(Ok(()))?.emitted::<String>(Ok(()))?;
    let pending = pending.env::<String>(Ok(Vec::new()), Some(2))?;
    let (ready, _) = pending.invalidated::<(), String>((), Ok(()))?.ready();
    let connecting = ready.arguments::<String>(Ok(vec![serde_json::Value::Null]))?;
    let (pulling, _) = connecting.connected::<(), String>(Ok(((), 1)))?;
    let output = pull(pulling.pull(), &mut messages);
    match pulling.pulled(output)? {
        EvaluateStep::Return(evaluation) => Ok(evaluation),
        EvaluateStep::WaitOrKill(finishing) => finishing.waited(Ok(())),
        EvaluateStep::Spawn { evaluation: JavaScriptEvaluation::Stream(mut stream), pump } => {
            loop {
                let output = pull(pump.pull(), &mut messages);
                let output = output.map_err(|failure| (format!("failed: {}", failure), failure));
                if pump.write(&mut stream, output) != PumpStep::Pull {
                    break;
                }
            }
            Ok(JavaScriptEvaluation::Stream(stream))
        }
        other => panic!("unexpected {:?}", other),
    }
}

fn value(data: &str) -> Message {
    EvalJavaScriptIncomingMessage::Value { data: data.to_string() }
}

fn end(data: Option<&str>) -> Message {
    EvalJavaScriptIncomingMessage::End { data: data.map(|d| d.to_string()) }
}

fn file(name: &str) -> Message {
    EvalJavaScriptIncomingMessage::FileDependency { path: name.to_string() }
}

fn warning(text: &str) -> Message {
    EvalJavaScriptIncomingMessage::EmittedError {
        severity: IssueSeverity::Warning,
        error: text.to_string(),
    }
}

fn bytes(text: &str) -> Item {
    Ok(BytesValue::from_text(text))
}

#[test]
fn conversation_without_values_is_empty() {
    let evaluation = converse(vec![file("a"), warning("w"), end(None), value("late")]).unwrap();
    assert!(matches!(evaluation, JavaScriptEvaluation::Empty));
}

#[test]
fn conversation_with_a_last_value_only_is_single() {
    match converse(vec![file("a"), end(Some("v")), value("late")]).unwrap() {
        JavaScriptEvaluation::Single(item) => assert_eq!(item, bytes("v")),
        other => panic!("unexpected {:?}", other),
    }
}

#[test]
fn conversation_that_fails_at_once_is_single() {
    let error = EvalJavaScriptIncomingMessage::Error("boom".to_string());
    match converse(vec![warning("w"), error]).unwrap() {
        JavaScriptEvaluation::Single(item) => assert_eq!(item, Err("boom".to_string())),
        other => panic!("unexpected {:?}", other),
    }
}

#[test]
fn conversation_with_intermediate_values_is_a_stream() {
    let messages =
        vec![file("a"), value("1"), warning("w"), value("2"), file("b"), end(Some("3")), value("4")];
    match converse(messages).unwrap() {
        JavaScriptEvaluation::Stream(stream) => {
            assert!(!stream.is_open());
            assert_eq!(stream.items(), &[bytes("1"), bytes("2"), bytes("3")][..]);
        }
        other => panic!("unexpected {:?}", other),
    }
}

#[test]
fn conversation_that_breaks_off_closes_the_stream() {
    match converse(vec![value("1"), value("2"), warning("w")]).unwrap() {
        JavaScriptEvaluation::Stream(stream) => {
            assert!(!stream.is_open());
            let described = Err("failed: gone".to_string());
            assert_eq!(stream.items(), &[bytes("1"), bytes("2"), described][..]);
        }
        other => panic!("unexpected {:?}", other),
    }
}

#[test]
fn conversation_without_a_result_fails() {
    assert_eq!(converse(vec![file("a")]).err(), Some("gone".to_string()));
}
