//! The messages that are exchanged with a worker.

use serde_json::Value as JsonValue;
use vstd::prelude::*;

verus! {

/// A JSON value of the `serde_json` crate. It is passed on and never looked into.
#[verifier::external_type_specification]
#[verifier::external_body]
pub struct ExJsonValue(JsonValue);

/// How serious an issue is.
#[derive(Clone, Copy, Debug, PartialEq, Eq, Structural)]
pub enum IssueSeverity {
    Bug,
    Fatal,
    Error,
    Warning,
    Hint,
    Note,
    Suggestion,
    Info,
}

/// A message to a worker.
#[derive(Debug)]
pub enum EvalJavaScriptOutgoingMessage<'a> {
    /// Evaluate the module with these arguments.
    Evaluate { args: Vec<&'a JsonValue> },
}

/// A message from a worker. `E` is the error that a worker describes.
#[allow(inconsistent_fields)]
#[derive(Debug)]
pub enum EvalJavaScriptIncomingMessage<E> {
    /// The evaluation read a file.
    FileDependency { path: String },
    /// The build itself depends on a file.
    BuildDependency { path: String },
    /// The evaluation depends on the files of a directory that match a glob.
    DirDependency { path: String, glob: String },
    /// The evaluation reports an error and goes on.
    EmittedError { severity: IssueSeverity, error: E },
    /// The evaluation gives an intermediate value and goes on.
    Value { data: String },
    /// The evaluation has ended, with a last value if there is one.
    End { data: Option<String> },
    /// The evaluation has failed.
    Error(E),
}

/// What pulling messages from a worker comes to.
#[derive(Debug, PartialEq, Eq)]
pub enum LoopResult<E> {
    /// An intermediate value.
    Value(String),
    /// The end, with a last value if there is one.
    End(Option<String>),
    /// A failure.
    Error(E),
}

impl<E> EvalJavaScriptIncomingMessage<E> {
    /// The result that the message carries, if it is one that ends the pulling.
    pub open spec fn output(self) -> Option<LoopResult<E>> {
        match self {
            EvalJavaScriptIncomingMessage::Value { data } => Some(LoopResult::Value(data)),
            EvalJavaScriptIncomingMessage::End { data } => Some(LoopResult::End(data)),
            EvalJavaScriptIncomingMessage::Error(error) => Some(LoopResult::Error(error)),
            _ => None,
        }
    }
}

/// The message that asks for an evaluation with the given arguments, in order.
pub fn evaluate_message(args: &Vec<JsonValue>) -> (message: EvalJavaScriptOutgoingMessage<'_>)
    ensures
        message matches EvalJavaScriptOutgoingMessage::Evaluate { args: sent } && sent@.len()
            == args@.len() && forall|i: int| 0 <= i < args@.len() ==> *(#[trigger] sent@[i])
            == args@[i],
{
    let mut sent: Vec<&JsonValue> = Vec::new();
    let mut i: usize = 0;
    while i < args.len()
        invariant
            i <= args.len(),
            sent@.len() == i,
            forall|j: int| 0 <= j < i ==> *(#[trigger] sent@[j]) == args@[j],
        decreases args.len() - i,
    {
        sent.push(&args[i]);
        i += 1;
    }
    EvalJavaScriptOutgoingMessage::Evaluate { args: sent }
}

/// A value, an end and an error each carry exactly themselves as a result, and no
/// other message carries one.
pub proof fn law_results_are_passed_on_whole<E>(message: EvalJavaScriptIncomingMessage<E>)
    ensures
        message.output() is Some <==> message is Value || message is End || message is Error,
        message.output() matches Some(LoopResult::Value(text)) ==> (
        message matches EvalJavaScriptIncomingMessage::Value { data } && data == text),
        message.output() matches Some(LoopResult::End(text)) ==> (
        message matches EvalJavaScriptIncomingMessage::End { data } && data == text),
        message.output() matches Some(LoopResult::Error(described)) ==> (
        message matches EvalJavaScriptIncomingMessage::Error(error) && error == described),
{
}

} // verus!
