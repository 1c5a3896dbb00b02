//! Evaluating a module: from the request to the result.

use crate::bytes::BytesValue;
use crate::message::{
    evaluate_message, EvalJavaScriptIncomingMessage, EvalJavaScriptOutgoingMessage, LoopResult,
};
use crate::path::{AssetIdent, FileSystemPath, PathView};
use crate::pool::{
    concurrency_for, entries_with_globals, get_evaluate_pool, BootstrapView, EvaluatePool,
    ModulePathPending, PoolOptions, PoolRequest, RuntimeAssetView, SetupView,
};
use crate::pull::{
    first_output_at, law_each_pull_gives_the_next_output, outputs_in, pull_operation, Receiving,
    ReceivingView,
};
use crate::stream::{Stream, StreamView};
use serde_json::Value as JsonValue;
use vstd::prelude::*;
use vstd::utf8::encode_utf8;

verus! {

/// A value that an evaluation gives, or the error that it ends with.
pub type EvaluationItem<E> = Result<BytesValue, E>;

/// The values of an evaluation that gives more than one.
pub type JavaScriptStream<E> = Stream<EvaluationItem<E>>;

/// The result of evaluating a module. `E` is the error that a worker describes.
#[derive(Debug)]
pub enum JavaScriptEvaluation<E> {
    /// An Empty is only possible if the evaluation completed successfully, but
    /// didn't send an error nor value.
    Empty,
    /// A Single is only possible if the evaluation returns either an error or
    /// value, and never sends an intermediate value.
    Single(EvaluationItem<E>),
    /// A Stream represents a series of intermediate values, followed by either
    /// an error or an ending value. A stream is never empty. An end without data
    /// has no value to add: it closes the stream without an item.
    Stream(JavaScriptStream<E>),
}

/// An item by its bytes.
pub open spec fn item_view<E>(item: EvaluationItem<E>) -> Result<Seq<u8>, E> {
    match item {
        Ok(value) => Ok(value@),
        Err(error) => Err(error),
    }
}

/// A stream by the bytes of its items.
pub open spec fn stream_view<E>(stream: JavaScriptStream<E>) -> StreamView<Result<Seq<u8>, E>> {
    StreamView {
        items: stream@.items.map_values(|item: EvaluationItem<E>| item_view(item)),
        open: stream@.open,
    }
}

#[verifier::ext_equal]
pub enum JavaScriptEvaluationView<E> {
    Empty,
    Single(Result<Seq<u8>, E>),
    Stream(StreamView<Result<Seq<u8>, E>>),
}

impl<E> View for JavaScriptEvaluation<E> {
    type V = JavaScriptEvaluationView<E>;

    open spec fn view(&self) -> JavaScriptEvaluationView<E> {
        match self {
            JavaScriptEvaluation::Empty => JavaScriptEvaluationView::Empty,
            JavaScriptEvaluation::Single(item) => JavaScriptEvaluationView::Single(item_view(*item)),
            JavaScriptEvaluation::Stream(stream) => JavaScriptEvaluationView::Stream(
                stream_view(*stream),
            ),
        }
    }
}

/// The item that carries `data` as a value.
pub open spec fn value_item<E>(data: String) -> Result<Seq<u8>, E> {
    Ok(encode_utf8(data@))
}

/// What an evaluation gives whose first result is `output`. If that is an
/// intermediate value, more is written to the stream later.
pub open spec fn evaluation_of<E>(output: LoopResult<E>) -> JavaScriptEvaluationView<E> {
    match output {
        LoopResult::End(None) => JavaScriptEvaluationView::Empty,
        LoopResult::End(Some(data)) => JavaScriptEvaluationView::Single(value_item(data)),
        LoopResult::Error(error) => JavaScriptEvaluationView::Single(Err(error)),
        LoopResult::Value(data) => JavaScriptEvaluationView::Stream(
            StreamView { items: seq![value_item(data)], open: true },
        ),
    }
}

/// A stream after one more result was written to it.
pub open spec fn written<E>(
    stream: StreamView<Result<Seq<u8>, E>>,
    output: LoopResult<E>,
) -> StreamView<Result<Seq<u8>, E>> {
    match output {
        LoopResult::End(None) => StreamView { items: stream.items, open: false },
        LoopResult::End(Some(data)) => StreamView {
            items: stream.items.push(value_item(data)),
            open: false,
        },
        LoopResult::Error(error) => StreamView { items: stream.items.push(Err(error)), open: false },
        LoopResult::Value(data) => StreamView {
            items: stream.items.push(value_item(data)),
            open: true,
        },
    }
}

/// A stream after one more pull, which gave a result or a failure with its
/// description.
pub open spec fn received<E>(
    stream: StreamView<Result<Seq<u8>, E>>,
    output: Result<LoopResult<E>, E>,
) -> StreamView<Result<Seq<u8>, E>> {
    match output {
        Ok(output) => written(stream, output),
        Err(described) => StreamView { items: stream.items.push(Err(described)), open: false },
    }
}

/// The item that carries `data` as a value.
fn make_value_item<E>(data: String) -> (item: EvaluationItem<E>)
    ensures
        item_view(item) == value_item::<E>(data),
        item matches Ok(value) && value@ == encode_utf8(data@),
{
    Ok(BytesValue::from_text(data.as_str()))
}

/// What an evaluation is asked for. The arguments are known by handles.
#[derive(Debug)]
pub struct EvaluateRequest {
    pub pool: PoolRequest,
    pub context_ident_for_issue: AssetIdent,
    pub args: Vec<u64>,
}

/// What a pool is set up for when it evaluates a module: the asset that issues are
/// about, and the arguments.
#[derive(Debug)]
pub struct EvaluationPurpose {
    context_ident: AssetIdent,
    args: Vec<u64>,
}

#[verifier::ext_equal]
pub struct PurposeView {
    pub context_ident: PathView,
    pub args: Seq<u64>,
}

impl View for EvaluationPurpose {
    type V = PurposeView;

    closed spec fn view(&self) -> PurposeView {
        PurposeView { context_ident: self.context_ident@, args: self.args@ }
    }
}

/// The pool is at hand, and the arguments are waited for.
#[derive(Debug)]
pub struct PoolReady {
    cwd: FileSystemPath,
    context_ident: AssetIdent,
    args: Vec<u64>,
}

#[verifier::ext_equal]
pub struct PoolReadyView {
    pub cwd: PathView,
    pub context_ident: PathView,
    pub args: Seq<u64>,
}

impl View for PoolReady {
    type V = PoolReadyView;

    closed spec fn view(&self) -> PoolReadyView {
        PoolReadyView {
            cwd: self.cwd@,
            context_ident: self.context_ident@,
            args: self.args@,
        }
    }
}

/// What every pull from the worker refers to, and whether the process of the
/// worker ends with the evaluation.
#[derive(Debug)]
struct Run {
    cwd: FileSystemPath,
    context_ident: AssetIdent,
    kill: bool,
}

#[verifier::ext_equal]
pub struct RunView {
    pub cwd: PathView,
    pub context_ident: PathView,
    pub kill: bool,
}

impl View for Run {
    type V = RunView;

    closed spec fn view(&self) -> RunView {
        RunView { cwd: self.cwd@, context_ident: self.context_ident@, kill: self.kill }
    }
}

impl Run {
    fn pull(&self) -> (receiving: Receiving)
        ensures
            receiving@ == ReceivingView::start(self@.cwd, self@.context_ident),
    {
        pull_operation(self.cwd.clone(), self.context_ident.clone())
    }
}

/// The arguments are known, and a worker is waited for that takes the job.
#[derive(Debug)]
pub struct Connecting {
    args: Vec<JsonValue>,
    run: Run,
}

/// What is sent to the worker, and what follows.
#[verifier::ext_equal]
pub struct ConnectingView {
    pub args: Seq<JsonValue>,
    pub run: RunView,
}

impl View for Connecting {
    type V = ConnectingView;

    closed spec fn view(&self) -> ConnectingView {
        ConnectingView { args: self.args@, run: self.run@ }
    }
}

impl SetupView<EvaluationPurpose> {
    /// The evaluation that a pool was set up for.
    pub open spec fn ready(self) -> PoolReadyView {
        PoolReadyView {
            cwd: self.request.cwd,
            context_ident: self.purpose@.context_ident,
            args: self.purpose@.args,
        }
    }
}

impl PoolReadyView {
    /// The evaluation once its arguments are known. One without arguments is assumed
    /// to be a one-off operation, so that its process can be killed afterwards.
    pub open spec fn with_arguments(self, args: Seq<JsonValue>) -> ConnectingView {
        ConnectingView {
            args,
            run: RunView {
                cwd: self.cwd,
                context_ident: self.context_ident,
                kill: args.len() == 0,
            },
        }
    }
}

/// A worker has the job, and its first result is waited for.
#[derive(Debug)]
pub struct Pulling {
    run: Run,
}

impl View for Pulling {
    type V = RunView;

    closed spec fn view(&self) -> RunView {
        self.run@
    }
}

/// The result is known, and the end of the process is waited for.
#[derive(Debug)]
pub struct Finishing<E> {
    evaluation: JavaScriptEvaluation<E>,
}

impl<E> View for Finishing<E> {
    type V = JavaScriptEvaluationView<E>;

    /// The result.
    closed spec fn view(&self) -> JavaScriptEvaluationView<E> {
        self.evaluation@
    }
}

/// Takes the results that follow the first one and writes them to the stream.
#[derive(Debug)]
pub struct Pump {
    run: Run,
}

impl View for Pump {
    type V = RunView;

    closed spec fn view(&self) -> RunView {
        self.run@
    }
}

/// What follows the first result of a worker.
#[derive(Debug)]
pub enum EvaluateStep<E> {
    /// Wait for the process to end, or kill it, before anything is returned.
    WaitOrKill(Finishing<E>),
    /// Return the result.
    Return(JavaScriptEvaluation<E>),
    /// Return the result, which is a stream, and go on writing to it.
    Spawn { evaluation: JavaScriptEvaluation<E>, pump: Pump },
}

#[verifier::ext_equal]
pub enum EvaluateStepView<E> {
    WaitOrKill(JavaScriptEvaluationView<E>),
    Return(JavaScriptEvaluationView<E>),
    Spawn { evaluation: JavaScriptEvaluationView<E>, run: RunView },
}

impl<E> View for EvaluateStep<E> {
    type V = EvaluateStepView<E>;

    open spec fn view(&self) -> EvaluateStepView<E> {
        match self {
            EvaluateStep::WaitOrKill(finishing) => EvaluateStepView::WaitOrKill(finishing@),
            EvaluateStep::Return(evaluation) => EvaluateStepView::Return(evaluation@),
            EvaluateStep::Spawn { evaluation, pump } => EvaluateStepView::Spawn {
                evaluation: evaluation@,
                run: pump@,
            },
        }
    }
}

/// What follows the first result `output`.
pub open spec fn step_after<E>(run: RunView, output: LoopResult<E>) -> EvaluateStepView<E> {
    let evaluation = evaluation_of(output);
    match output {
        LoopResult::End(_) if run.kill => EvaluateStepView::WaitOrKill(evaluation),
        LoopResult::Value(_) => EvaluateStepView::Spawn { evaluation, run },
        _ => EvaluateStepView::Return(evaluation),
    }
}

/// What is returned to the caller of an evaluation, now or once the process has
/// ended.
pub open spec fn returned_by<E>(step: EvaluateStepView<E>) -> JavaScriptEvaluationView<E> {
    match step {
        EvaluateStepView::WaitOrKill(evaluation) => evaluation,
        EvaluateStepView::Return(evaluation) => evaluation,
        EvaluateStepView::Spawn { evaluation, .. } => evaluation,
    }
}

/// What follows a result that was written to a stream. `F` is the failure to get
/// a result.
#[derive(Debug, PartialEq, Eq)]
pub enum PumpStep<F> {
    /// Get the next result.
    Pull,
    /// Wait for the process to end, or kill it.
    WaitOrKill,
    /// Nothing is left to be done.
    Done,
    /// Stop with a failure.
    Fail(F),
}

/// What follows `output` when it is written to a stream.
pub open spec fn pump_step_after<E, F>(run: RunView, output: LoopResult<E>) -> PumpStep<F> {
    match output {
        LoopResult::Value(_) => PumpStep::Pull,
        _ => if run.kill {
            PumpStep::WaitOrKill
        } else {
            PumpStep::Done
        },
    }
}

/// Whether the setup of a pool is the one that evaluates `request`: it is for the
/// pool, the asset and the arguments of the request.
pub open spec fn sets_up_for(
    setup: SetupView<EvaluationPurpose>,
    request: EvaluateRequest,
) -> bool {
    &&& setup.request == request.pool@
    &&& setup.purpose@ == PurposeView {
        context_ident: request.context_ident_for_issue@,
        args: request.args@,
    }
}

/// Starts an evaluation, which sets up a pool for the request. What is evaluated
/// is handed back with the pool.
///
/// Pass the file you cared as `runtime_entries` to invalidate and reload the
/// evaluated result automatically.
pub fn evaluate(request: EvaluateRequest) -> (pending: ModulePathPending<EvaluationPurpose>)
    ensures
        sets_up_for(pending@, request),
        pending@.request == request.pool@,
        pending@.purpose@.context_ident == request.context_ident_for_issue@,
        pending@.purpose@.args == request.args@,
{
    let purpose = EvaluationPurpose {
        context_ident: request.context_ident_for_issue,
        args: request.args,
    };
    get_evaluate_pool(request.pool, purpose)
}

impl<P> EvaluatePool<P, EvaluationPurpose> {
    /// Goes on with the evaluation that the pool was set up for. The pool is handed
    /// on.
    pub fn ready(self) -> (ready: (PoolReady, P))
        ensures
            ready.0@ == self@.setup.ready(),
            ready.0@.cwd == self@.setup.request.cwd,
            ready.0@.context_ident == self@.setup.purpose@.context_ident,
            ready.0@.args == self@.setup.purpose@.args,
            ready.1 == self@.pool,
    {
        let (request, purpose, pool) = self.into_parts();
        let ready = PoolReady {
            cwd: request.cwd,
            context_ident: purpose.context_ident,
            args: purpose.args,
        };
        (ready, pool)
    }
}

impl PoolReady {
    /// The arguments that are waited for.
    pub fn awaited(&self) -> (args: &[u64])
        ensures
            args@ == self@.args,
    {
        self.args.as_slice()
    }

    /// Takes the arguments. An evaluation without arguments is assumed to be a
    /// one-off operation, so that its process can be killed afterwards.
    pub fn arguments<F>(self, args: Result<Vec<JsonValue>, F>) -> (connecting: Result<
        Connecting,
        F,
    >)
        ensures
            match args {
                Ok(a) => {
                    &&& connecting matches Ok(c)
                    &&& c@ == self@.with_arguments(a@)
                    &&& c@.args == a@
                    &&& c@.run.cwd == self@.cwd
                    &&& c@.run.context_ident == self@.context_ident
                    &&& c@.run.kill <==> a@.len() == 0
                },
                Err(failure) => connecting == Err::<Connecting, F>(failure),
            },
    {
        match args {
            Ok(args) => {
                let kill = args.is_empty();
                let run = Run { cwd: self.cwd, context_ident: self.context_ident, kill };
                Ok(Connecting { args, run })
            },
            Err(failure) => Err(failure),
        }
    }
}

impl Connecting {
    /// The message that is sent to the worker, at every attempt.
    pub fn message(&self) -> (message: EvalJavaScriptOutgoingMessage<'_>)
        ensures
            message matches EvalJavaScriptOutgoingMessage::Evaluate { args } && args@.len()
                == self@.args.len() && forall|i: int|
                0 <= i < args@.len() ==> *(#[trigger] args@[i]) == self@.args[i],
    {
        evaluate_message(&self.args)
    }

    /// Takes the worker that accepted the job, or the last failure to find one.
    /// The number of attempts, which comes with either, plays no part.
    pub fn connected<O, F>(self, outcome: Result<(O, usize), (F, usize)>) -> (pulling: Result<
        (Pulling, O),
        F,
    >)
        ensures
            match outcome {
                Ok((operation, _)) => pulling matches Ok((p, o)) && p@ == self@.run && o
                    == operation,
                Err((failure, _)) => pulling == Err::<(Pulling, O), F>(failure),
            },
    {
        match outcome {
            Ok((operation, _)) => Ok((Pulling { run: self.run }, operation)),
            Err((failure, _)) => Err(failure),
        }
    }
}

impl Pulling {
    /// Starts to pull the first result.
    pub fn pull(&self) -> (receiving: Receiving)
        ensures
            receiving@ == ReceivingView::start(self@.cwd, self@.context_ident),
    {
        self.run.pull()
    }

    /// Takes the first result of the worker.
    ///
    /// An end or an error is all there is to return. Anything else is the first
    /// of several values, and the rest is written to a stream.
    pub fn pulled<E, F>(self, output: Result<LoopResult<E>, F>) -> (step: Result<
        EvaluateStep<E>,
        F,
    >)
        ensures
            match output {
                Ok(o) => {
                    &&& step matches Ok(s)
                    &&& s@ == step_after(self@, o)
                    &&& s is Spawn <==> o is Value
                    &&& s is WaitOrKill <==> o is End && self@.kill
                    &&& s matches EvaluateStep::Spawn { pump, .. } ==> pump@ == self@
                    &&& o matches LoopResult::End(None) ==> returned_by(s@) is Empty
                    &&& o matches LoopResult::End(Some(data)) ==> returned_by(s@)
                        == JavaScriptEvaluationView::<E>::Single(Ok(encode_utf8(data@)))
                    &&& o matches LoopResult::Error(error) ==> returned_by(s@)
                        == JavaScriptEvaluationView::<E>::Single(Err(error))
                    &&& o matches LoopResult::Value(data) ==> returned_by(s@)
                        == JavaScriptEvaluationView::<E>::Stream(
                        StreamView { items: seq![Ok(encode_utf8(data@))], open: true },
                    )
                },
                Err(failure) => step == Err::<EvaluateStep<E>, F>(failure),
            },
    {
        let output = match output {
            Ok(output) => output,
            Err(failure) => return Err(failure),
        };
        match output {
            LoopResult::End(data) => {
                let evaluation = match data {
                    None => JavaScriptEvaluation::Empty,
                    Some(data) => JavaScriptEvaluation::Single(make_value_item(data)),
                };
                if self.run.kill {
                    Ok(EvaluateStep::WaitOrKill(Finishing { evaluation }))
                } else {
                    Ok(EvaluateStep::Return(evaluation))
                }
            },
            LoopResult::Error(error) => Ok(
                EvaluateStep::Return(JavaScriptEvaluation::Single(Err(error))),
            ),
            LoopResult::Value(data) => {
                let mut items: Vec<EvaluationItem<E>> = Vec::new();
                items.push(make_value_item(data));
                let stream = Stream::new_open(items);
                proof {
                    assert(stream_view(stream).items =~= seq![value_item::<E>(data)]);
                }
                Ok(
                    EvaluateStep::Spawn {
                        evaluation: JavaScriptEvaluation::Stream(stream),
                        pump: Pump { run: self.run },
                    },
                )
            },
        }
    }
}

impl<E> Finishing<E> {
    /// Returns the result once the process has ended, or the failure to end it.
    pub fn waited<F>(self, waited: Result<(), F>) -> (evaluation: Result<
        JavaScriptEvaluation<E>,
        F,
    >)
        ensures
            match waited {
                Ok(()) => evaluation matches Ok(e) && e@ == self@,
                Err(failure) => evaluation == Err::<JavaScriptEvaluation<E>, F>(failure),
            },
    {
        match waited {
            Ok(()) => Ok(self.evaluation),
            Err(failure) => Err(failure),
        }
    }
}

impl Pump {
    /// Starts to pull the next result.
    pub fn pull(&self) -> (receiving: Receiving)
        ensures
            receiving@ == ReceivingView::start(self@.cwd, self@.context_ident),
    {
        self.run.pull()
    }

    /// Writes the next result to the stream. A failure to get one comes with its
    /// description, which closes the stream as an error of the worker does.
    pub fn write<E, F>(
        &self,
        stream: &mut JavaScriptStream<E>,
        output: Result<LoopResult<E>, (E, F)>,
    ) -> (step: PumpStep<F>)
        requires
            old(stream)@.open,
        ensures
            step is Pull <==> final(stream)@.open,
            step is Pull <==> (output matches Ok(o) && o is Value),
            step is WaitOrKill <==> (output matches Ok(o) && !(o is Value)) && self@.kill,
            step is Done <==> (output matches Ok(o) && !(o is Value)) && !self@.kill,
            final(stream)@.items.len() == old(stream)@.items.len() + if output matches Ok(
                LoopResult::End(None),
            ) {
                0int
            } else {
                1
            },
            forall|i: int|
                0 <= i < old(stream)@.items.len() ==> final(stream)@.items[i] == #[trigger] old(
                    stream,
                )@.items[i],
            output matches Ok(LoopResult::Value(data)) ==> (
            final(stream)@.items.last() matches Ok(value) && value@ == encode_utf8(data@)),
            output matches Ok(LoopResult::End(Some(data))) ==> (
            final(stream)@.items.last() matches Ok(value) && value@ == encode_utf8(data@)),
            output matches Ok(LoopResult::Error(error)) ==> final(stream)@.items.last() == Err::<
                BytesValue,
                E,
            >(error),
            match output {
                Ok(o) => {
                    &&& stream_view(*final(stream)) == written(stream_view(*old(stream)), o)
                    &&& step == pump_step_after::<E, F>(self@, o)
                },
                Err((described, failure)) => {
                    &&& stream_view(*final(stream)) == (StreamView {
                        items: stream_view(*old(stream)).items.push(Err(described)),
                        open: false,
                    })
                    &&& step == PumpStep::Fail(failure)
                },
            },
    {
        let output = match output {
            Ok(output) => output,
            Err((described, failure)) => {
                stream.close(Some(Err(described)));
                proof {
                    assert(stream_view(*stream).items =~= stream_view(*old(stream)).items.push(
                        Err(described),
                    ));
                }
                return PumpStep::Fail(failure);
            },
        };
        let ghost o = output;
        match output {
            LoopResult::End(data) => {
                let last: Option<EvaluationItem<E>> = match data {
                    None => None,
                    Some(data) => Some(make_value_item(data)),
                };
                stream.close(last);
            },
            LoopResult::Error(error) => {
                stream.close(Some(Err(error)));
            },
            LoopResult::Value(data) => {
                stream.push(make_value_item(data));
                proof {
                    assert(stream_view(*stream) =~= written(stream_view(*old(stream)), o));
                }
                return PumpStep::Pull;
            },
        }
        proof {
            assert(stream_view(*stream) =~= written(stream_view(*old(stream)), o));
        }
        if self.run.kill {
            PumpStep::WaitOrKill
        } else {
            PumpStep::Done
        }
    }
}

/// Writes the outcomes of pulls to a stream one after the other, until it is
/// closed.
pub open spec fn pumped<E>(
    stream: StreamView<Result<Seq<u8>, E>>,
    outputs: Seq<Result<LoopResult<E>, E>>,
) -> StreamView<Result<Seq<u8>, E>>
    decreases outputs.len(),
{
    if !stream.open || outputs.len() == 0 {
        stream
    } else {
        pumped(received(stream, outputs[0]), outputs.drop_first())
    }
}

/// Whether a pull gave an intermediate value.
pub open spec fn is_value<E>(output: Result<LoopResult<E>, E>) -> bool {
    output matches Ok(LoopResult::Value(_))
}

/// The values of a sequence of intermediate results.
pub open spec fn values_in<E>(outputs: Seq<Result<LoopResult<E>, E>>) -> Seq<Result<Seq<u8>, E>> {
    outputs.map_values(|o: Result<LoopResult<E>, E>| value_item(o->Ok_0->Value_0))
}

/// What the outcome of the last pull adds to a stream: the ending value, or the
/// error that the worker or the failure is described by.
pub open spec fn last_item<E>(output: Result<LoopResult<E>, E>) -> Seq<Result<Seq<u8>, E>> {
    match output {
        Ok(LoopResult::End(Some(data))) => seq![value_item(data)],
        Ok(LoopResult::Error(error)) => seq![Err(error)],
        Err(described) => seq![Err(described)],
        _ => seq![],
    }
}

/// Whether a stream holds what a stream of an evaluation may hold: it is not
/// empty, it begins with a value, and an error can only be the last item of a
/// closed stream.
pub open spec fn valid_stream<E>(stream: StreamView<Result<Seq<u8>, E>>) -> bool {
    &&& stream.items.len() > 0
    &&& stream.items[0] is Ok
    &&& forall|i: int|
        0 <= i < stream.items.len() && (stream.open || i < stream.items.len() - 1) ==> (
        #[trigger] stream.items[i]) is Ok
}

/// Each kind of evaluation comes from its own kind of first result: nothing at
/// all from an end without a value, a single item from an error or from an end
/// with a value, and a stream from an intermediate value.
pub proof fn law_evaluation_follows_the_first_output<E>(output: LoopResult<E>)
    ensures
        evaluation_of(output) is Empty <==> output == LoopResult::<E>::End(None),
        evaluation_of(output) is Single <==> output is Error || (output is End && output->End_0
            is Some),
        evaluation_of(output) is Stream <==> output is Value,
        evaluation_of(output) matches JavaScriptEvaluationView::Single(Err(e)) <==> output
            is Error,
{
}

/// An evaluation is empty only if it completed without sending an error or a
/// value: up to and with the end, no message is either.
pub proof fn law_empty_means_nothing_was_sent<E>(
    messages: Seq<EvalJavaScriptIncomingMessage<E>>,
    k: int,
)
    requires
        first_output_at(messages, k),
        evaluation_of(messages[k].output()->0) is Empty,
    ensures
        messages[k] matches EvalJavaScriptIncomingMessage::End { data } && data is None,
        forall|i: int|
            0 <= i <= k ==> !((#[trigger] messages[i]) is Value) && !(messages[i] is Error),
{
    assert forall|i: int| 0 <= i <= k implies !((#[trigger] messages[i]) is Value) && !(messages[i]
        is Error) by {
        if i < k {
            assert(messages[i].output() is None);
        }
    }
}

/// An evaluation gives a single item only if it sent an error or a last value,
/// and no intermediate value before.
pub proof fn law_single_means_no_intermediate_value<E>(
    messages: Seq<EvalJavaScriptIncomingMessage<E>>,
    k: int,
)
    requires
        first_output_at(messages, k),
        evaluation_of(messages[k].output()->0) is Single,
    ensures
        messages[k] is Error || (messages[k] matches EvalJavaScriptIncomingMessage::End { data }
            && data is Some),
        forall|i: int| 0 <= i <= k ==> !((#[trigger] messages[i]) is Value),
{
    assert forall|i: int| 0 <= i <= k implies !((#[trigger] messages[i]) is Value) by {
        if i < k {
            assert(messages[i].output() is None);
        }
    }
}

/// An evaluation gives a stream only if the first message that carries a result
/// is an intermediate value, and that value is the first item.
pub proof fn law_stream_begins_with_the_first_value<E>(
    messages: Seq<EvalJavaScriptIncomingMessage<E>>,
    k: int,
)
    requires
        first_output_at(messages, k),
        evaluation_of(messages[k].output()->0) is Stream,
    ensures
        messages[k] matches EvalJavaScriptIncomingMessage::Value { data } && (evaluation_of(
            messages[k].output()->0,
        ) matches JavaScriptEvaluationView::Stream(stream) && stream.items == seq![
            value_item::<E>(data),
        ]),
{
}

/// A stream is valid from the start.
pub proof fn law_new_stream_is_valid<E>(output: LoopResult<E>)
    ensures
        evaluation_of(output) matches JavaScriptEvaluationView::Stream(stream) ==> stream.open
            && valid_stream(stream),
{
}

/// Writing the outcome of a pull keeps a stream valid, and keeps what it holds:
/// items are only ever added at the end.
pub proof fn law_writing_keeps_a_stream_valid<E>(
    stream: StreamView<Result<Seq<u8>, E>>,
    output: Result<LoopResult<E>, E>,
)
    requires
        stream.open,
        valid_stream(stream),
    ensures
        valid_stream(received(stream, output)),
        stream.items.is_prefix_of(received(stream, output).items),
        received(stream, output).open <==> is_value(output),
{
    let after = received(stream, output);
    assert(stream.items =~= after.items.take(stream.items.len() as int));
}

/// Once an end, an error or a failed pull was written, the stream is closed and
/// still valid, and it ends with the ending value or the error. Only an end without
/// data adds nothing.
pub proof fn law_last_outcome_closes_the_stream<E>(
    stream: StreamView<Result<Seq<u8>, E>>,
    output: Result<LoopResult<E>, E>,
)
    requires
        stream.open,
        valid_stream(stream),
        !is_value(output),
    ensures
        !received(stream, output).open,
        valid_stream(received(stream, output)),
        received(stream, output).items == stream.items + last_item(output),
        last_item(output).len() == 0 <==> output == Ok::<LoopResult<E>, E>(LoopResult::End(None)),
{
    assert(received(stream, output).items =~= stream.items + last_item(output));
}

/// Whatever pulls follow, the stream of an evaluation is never empty, and an error
/// can only be its last item.
pub proof fn law_stream_stays_valid<E>(
    stream: StreamView<Result<Seq<u8>, E>>,
    outputs: Seq<Result<LoopResult<E>, E>>,
)
    requires
        valid_stream(stream),
    ensures
        valid_stream(pumped(stream, outputs)),
    decreases outputs.len(),
{
    if stream.open && outputs.len() > 0 {
        law_writing_keeps_a_stream_valid(stream, outputs[0]);
        law_stream_stays_valid(received(stream, outputs[0]), outputs.drop_first());
    }
}

/// As long as only intermediate values come, the stream holds all of them in
/// order and stays open.
pub proof fn law_stream_holds_the_values<E>(
    stream: StreamView<Result<Seq<u8>, E>>,
    outputs: Seq<Result<LoopResult<E>, E>>,
)
    requires
        stream.open,
        forall|i: int| 0 <= i < outputs.len() ==> is_value(#[trigger] outputs[i]),
    ensures
        pumped(stream, outputs) == (StreamView {
            items: stream.items + values_in(outputs),
            open: true,
        }),
    decreases outputs.len(),
{
    if outputs.len() == 0 {
        assert(stream.items + values_in(outputs) =~= stream.items);
    } else {
        let rest = outputs.drop_first();
        assert(is_value(outputs[0]));
        assert forall|i: int| 0 <= i < rest.len() implies is_value(#[trigger] rest[i]) by {
            assert(rest[i] == outputs[i + 1]);
        }
        let next = received(stream, outputs[0]);
        law_stream_holds_the_values(next, rest);
        assert(next.items + values_in(rest) =~= stream.items + values_in(outputs));
    }
}

/// The first outcome that is not an intermediate value closes the stream: behind
/// the values that came before it, it adds the last value or the error, if it has
/// one, and nothing is written afterwards.
pub proof fn law_first_end_closes_the_stream<E>(
    stream: StreamView<Result<Seq<u8>, E>>,
    outputs: Seq<Result<LoopResult<E>, E>>,
    k: int,
)
    requires
        stream.open,
        0 <= k < outputs.len(),
        !is_value(outputs[k]),
        forall|i: int| 0 <= i < k ==> is_value(#[trigger] outputs[i]),
    ensures
        !pumped(stream, outputs).open,
        pumped(stream, outputs).items == stream.items + values_in(outputs.take(k)) + last_item(
            outputs[k],
        ),
        valid_stream(stream) ==> valid_stream(pumped(stream, outputs)),
    decreases k,
{
    if valid_stream(stream) {
        law_stream_stays_valid(stream, outputs);
    }
    if k == 0 {
        let next = received(stream, outputs[0]);
        assert(pumped(next, outputs.drop_first()) == next);
        assert(next.items =~= stream.items + values_in(outputs.take(0)) + last_item(outputs[0]));
    } else {
        let rest = outputs.drop_first();
        assert(is_value(outputs[0]));
        assert forall|i: int| 0 <= i < k - 1 implies is_value(#[trigger] rest[i]) by {
            assert(rest[i] == outputs[i + 1]);
        }
        assert(rest[k - 1] == outputs[k]);
        let next = received(stream, outputs[0]);
        law_first_end_closes_the_stream(next, rest, k - 1);
        assert(next.items + values_in(rest.take(k - 1)) =~= stream.items + values_in(
            outputs.take(k),
        ));
    }
}

/// What pulling gives from a worker that sends `messages` and then, if `broken` is
/// given, can no longer be pulled from: the results, and the description of the
/// failure.
pub open spec fn outcomes_in<E>(
    messages: Seq<EvalJavaScriptIncomingMessage<E>>,
    broken: Option<E>,
) -> Seq<Result<LoopResult<E>, E>> {
    outputs_in(messages).map_values(|o: LoopResult<E>| Ok::<LoopResult<E>, E>(o)) + match broken {
        Some(described) => seq![Err::<LoopResult<E>, E>(described)],
        None => seq![],
    }
}

/// What an evaluation comes to when the worker sends `messages` and then, if
/// `broken` is given, can no longer be pulled from: nothing as long as no result is
/// among the messages, and otherwise what follows from the first result, with the
/// outcomes of the other pulls written to it if it is a stream.
pub open spec fn evaluated<E>(
    messages: Seq<EvalJavaScriptIncomingMessage<E>>,
    broken: Option<E>,
) -> Option<JavaScriptEvaluationView<E>> {
    let outcomes = outcomes_in(messages, broken);
    if outcomes.len() == 0 || outcomes[0] is Err {
        None
    } else {
        Some(
            match evaluation_of(outcomes[0]->Ok_0) {
                JavaScriptEvaluationView::Stream(stream) => JavaScriptEvaluationView::Stream(
                    pumped(stream, outcomes.drop_first()),
                ),
                evaluation => evaluation,
            },
        )
    }
}

/// Whatever the worker sends, the kind of the evaluation is that of the first
/// message that carries a result: it is empty for an end without a value, a single
/// item for an end with a value or an error, and otherwise a stream, which is never
/// empty and holds an error at most as its last item. Messages after the first
/// result play a part only for a stream. Where the worker can no longer be pulled
/// from, no stream is left open.
pub proof fn law_evaluation_of_a_conversation<E>(
    messages: Seq<EvalJavaScriptIncomingMessage<E>>,
    broken: Option<E>,
    k: int,
)
    requires
        first_output_at(messages, k),
    ensures
        evaluated(messages, broken) matches Some(evaluation) && match messages[k] {
            EvalJavaScriptIncomingMessage::End { data: None } => evaluation
                == JavaScriptEvaluationView::<E>::Empty,
            EvalJavaScriptIncomingMessage::End { data: Some(data) } => evaluation
                == JavaScriptEvaluationView::<E>::Single(value_item(data)),
            EvalJavaScriptIncomingMessage::Error(error) => evaluation
                == JavaScriptEvaluationView::<E>::Single(Err(error)),
            EvalJavaScriptIncomingMessage::Value { data } => {
                &&& evaluation matches JavaScriptEvaluationView::Stream(stream)
                &&& valid_stream(stream)
                &&& stream.items[0] == value_item::<E>(data)
                &&& stream == pumped(
                    StreamView { items: seq![value_item::<E>(data)], open: true },
                    outcomes_in(messages.skip(k + 1), broken),
                )
                &&& broken is Some ==> !stream.open
            },
            _ => false,
        },
{
    law_each_pull_gives_the_next_output(messages, k);
    let first = messages[k].output()->0;
    let later = outcomes_in(messages.skip(k + 1), broken);
    let outcomes = outcomes_in(messages, broken);
    assert(outputs_in(messages)[0] == first);
    assert(outcomes[0] == Ok::<LoopResult<E>, E>(first));
    assert(outcomes.drop_first() =~= later);
    if let JavaScriptEvaluationView::Stream(stream) = evaluation_of(first) {
        law_new_stream_is_valid(first);
        law_stream_stays_valid(stream, later);
        lemma_pumped_keeps_items(stream, later);
        if broken is Some {
            assert(!is_value(later[later.len() - 1]));
            lemma_closed_by(stream, later, later.len() - 1);
        }
    }
}

proof fn lemma_pumped_keeps_items<E>(
    stream: StreamView<Result<Seq<u8>, E>>,
    outputs: Seq<Result<LoopResult<E>, E>>,
)
    ensures
        pumped(stream, outputs).items.len() >= stream.items.len(),
        forall|i: int|
            0 <= i < stream.items.len() ==> pumped(stream, outputs).items[i]
                == #[trigger] stream.items[i],
    decreases outputs.len(),
{
    if stream.open && outputs.len() > 0 {
        let next = received(stream, outputs[0]);
        lemma_pumped_keeps_items(next, outputs.drop_first());
        assert forall|i: int| 0 <= i < stream.items.len() implies pumped(stream, outputs).items[i]
            == #[trigger] stream.items[i] by {
            assert(next.items[i] == stream.items[i]);
        }
    }
}

proof fn lemma_closed_by<E>(
    stream: StreamView<Result<Seq<u8>, E>>,
    outputs: Seq<Result<LoopResult<E>, E>>,
    k: int,
)
    requires
        0 <= k < outputs.len(),
        !is_value(outputs[k]),
    ensures
        !pumped(stream, outputs).open,
    decreases k,
{
    if stream.open {
        let next = received(stream, outputs[0]);
        if k > 0 {
            assert(outputs.drop_first()[k - 1] == outputs[k]);
            lemma_closed_by(next, outputs.drop_first(), k - 1);
        } else {
            assert(pumped(next, outputs.drop_first()) == next);
        }
    }
}

/// Only the process of an evaluation without arguments is waited for or killed,
/// and it is so whenever the evaluation ends, except when the very first result
/// is an error.
pub proof fn law_process_ends_with_a_one_off_evaluation<E, F>(
    ready: PoolReadyView,
    args: Seq<JsonValue>,
    output: LoopResult<E>,
)
    ensures
        step_after(ready.with_arguments(args).run, output) is WaitOrKill <==> args.len() == 0
            && output is End,
        pump_step_after::<E, F>(ready.with_arguments(args).run, output) is WaitOrKill
            <==> args.len() == 0 && !(output is Value),
{
}

/// Waiting for the process does not change what is returned.
pub proof fn law_waiting_keeps_the_result<E>(run: RunView, output: LoopResult<E>)
    ensures
        (match step_after(run, output) {
            EvaluateStepView::WaitOrKill(evaluation) => evaluation,
            EvaluateStepView::Return(evaluation) => evaluation,
            EvaluateStepView::Spawn { evaluation, .. } => evaluation,
        }) == evaluation_of(output),
{
}

/// One evaluation belongs to one request throughout. Its pool is the one that is
/// set up for the pool request in it, field for field, so that whatever invalidates
/// the pool, the runtime entries among it, invalidates the evaluation. The pool runs
/// the module of the request, and every pull, the first as well as those for a
/// stream, refers to the working directory of the request and to the asset that it
/// names for its issues.
pub proof fn law_evaluation_uses_its_own_pool<D, E>(
    request: EvaluateRequest,
    start: SetupView<EvaluationPurpose>,
    file_name: Seq<char>,
    runtime: RuntimeAssetView,
    cwd: D,
    entrypoint: D,
    globals: u64,
    others: Option<Seq<u64>>,
    env: Vec<(String, String)>,
    available_parallelism: Option<usize>,
    args: Seq<JsonValue>,
    output: LoopResult<E>,
)
    requires
        sets_up_for(start, request),
    ensures
        ({
            let emit = start.after_module(file_name, runtime).after_cwd(
                Some(cwd),
            ).after_entrypoint(Some(entrypoint)).after_entries(globals, others);
            let last = emit.after_emit().after_env(env, available_parallelism);
            let connecting = last.setup.ready().with_arguments(args);
            &&& emit.setup.request == request.pool@
            &&& last.setup.request == request.pool@
            &&& emit.bootstrap == BootstrapView {
                path: request.pool@.entry_path(file_name),
                entry_module: request.pool@.entry_module(runtime),
                chunking_context: request.pool@.chunking_context(),
                runtime_entries: entries_with_globals(globals, others),
            }
            &&& last.options == PoolOptions {
                cwd,
                entrypoint,
                env,
                concurrency: concurrency_for(available_parallelism),
                debug: request.pool@.debug,
            }
            &&& last.setup.ready().args == request.args@
            &&& connecting.args == args
            &&& connecting.run.cwd == request.pool@.cwd
            &&& connecting.run.context_ident == request.context_ident_for_issue@
            &&& step_after(connecting.run, output) matches EvaluateStepView::Spawn { run, .. }
                ==> run == connecting.run
        }),
{
}

/// The bytes of a value are the UTF-8 bytes of its whole text, however long it is.
/// So two texts give the same item only if they have the same bytes.
pub proof fn law_value_is_passed_on_whole<E>(data: String, other: String)
    ensures
        value_item::<E>(data) == Ok::<Seq<u8>, E>(encode_utf8(data@)),
        value_item::<E>(data) == value_item::<E>(other) <==> encode_utf8(data@) == encode_utf8(
            other@,
        ),
{
}

/// The first result alone decides what the caller gets: nothing for an end without
/// data, the bytes of the whole data for an end with it, the error as it is, and for
/// an intermediate value an open stream with the bytes of that whole value.
pub proof fn law_first_result_is_passed_on_whole<E>(output: LoopResult<E>)
    ensures
        match output {
            LoopResult::End(None) => evaluation_of(output) == JavaScriptEvaluationView::<E>::Empty,
            LoopResult::End(Some(data)) => evaluation_of(output) == JavaScriptEvaluationView::<
                E,
            >::Single(Ok(encode_utf8(data@))),
            LoopResult::Error(error) => evaluation_of(output) == JavaScriptEvaluationView::<
                E,
            >::Single(Err(error)),
            LoopResult::Value(data) => evaluation_of(output) == JavaScriptEvaluationView::<
                E,
            >::Stream(StreamView { items: seq![Ok(encode_utf8(data@))], open: true }),
        },
{
}

/// Writing never touches what a stream holds. A value or an end with data adds the
/// bytes of its whole text, an error adds itself, and an end without data adds
/// nothing; only after a value the stream is open.
pub proof fn law_result_is_written_whole<E>(
    stream: StreamView<Result<Seq<u8>, E>>,
    output: LoopResult<E>,
)
    ensures
        written(stream, output).open <==> output is Value,
        written(stream, output).items == match output {
            LoopResult::Value(data) => stream.items.push(Ok(encode_utf8(data@))),
            LoopResult::End(Some(data)) => stream.items.push(Ok(encode_utf8(data@))),
            LoopResult::End(None) => stream.items,
            LoopResult::Error(error) => stream.items.push(Err(error)),
        },
{
}

/// A failed pull adds the description of the failure and closes the stream.
pub proof fn law_failed_pull_is_written<E>(
    stream: StreamView<Result<Seq<u8>, E>>,
    output: Result<LoopResult<E>, E>,
)
    ensures
        output matches Err(described) ==> received(stream, output).items == stream.items.push(
            Err(described),
        ) && !received(stream, output).open,
        output matches Ok(o) ==> received(stream, output) == written(stream, o),
{
}

/// The pump goes on exactly when the stream that it wrote to is still open, which
/// is exactly after an intermediate value. Otherwise it ends with the process or
/// without it, as the evaluation is a one-off operation or not; it never fails over a
/// result.
pub proof fn law_pump_goes_on_while_the_stream_is_open<E, F>(
    run: RunView,
    stream: StreamView<Result<Seq<u8>, E>>,
    output: LoopResult<E>,
)
    ensures
        pump_step_after::<E, F>(run, output) is Pull <==> written(stream, output).open,
        pump_step_after::<E, F>(run, output) is Pull <==> output is Value,
        pump_step_after::<E, F>(run, output) is WaitOrKill <==> !(output is Value) && run.kill,
        pump_step_after::<E, F>(run, output) is Done <==> !(output is Value) && !run.kill,
        !(pump_step_after::<E, F>(run, output) is Fail),
{
}

/// Whatever results come, the pump only stops once the stream is closed, and no
/// value is lost: as long as values come it has asked for the next result, and the
/// stream is open and holds the bytes of each of them, whole and in order. Here
/// `streams[i]` is the stream before result number `i` is written.
pub proof fn law_pump_stops_only_at_a_closed_stream<E, F>(
    run: RunView,
    streams: Seq<StreamView<Result<Seq<u8>, E>>>,
    outputs: Seq<LoopResult<E>>,
    n: int,
)
    requires
        0 <= n < outputs.len(),
        streams.len() == outputs.len() + 1,
        streams[0].open,
        forall|i: int|
            0 <= i < outputs.len() ==> #[trigger] streams[i + 1] == written(streams[i], outputs[i]),
        forall|i: int| 0 <= i < n ==> #[trigger] outputs[i] is Value,
    ensures
        forall|i: int|
            0 <= i < n ==> pump_step_after::<E, F>(run, #[trigger] outputs[i]) is Pull,
        streams[n].open,
        streams[n].items.len() == streams[0].items.len() + n,
        forall|i: int|
            0 <= i < n ==> streams[n].items[streams[0].items.len() + i] == Ok::<Seq<u8>, E>(
                encode_utf8((#[trigger] outputs[i])->Value_0@),
            ),
        forall|i: int|
            0 <= i < streams[0].items.len() ==> streams[n].items[i]
                == #[trigger] streams[0].items[i],
        !(pump_step_after::<E, F>(run, outputs[n]) is Pull) <==> !streams[n + 1].open,
    decreases n,
{
    if n > 0 {
        law_pump_stops_only_at_a_closed_stream::<E, F>(run, streams, outputs, n - 1);
        assert(streams[n - 1 + 1] == written(streams[n - 1], outputs[n - 1]));
        assert(outputs[n - 1] is Value);
    }
    assert(streams[n + 1] == written(streams[n], outputs[n]));
}

/// Every value that a worker sends before anything else reaches the caller, whole
/// and in its place: the first makes the evaluation a stream, and item number `j` is
/// the bytes of value number `j`.
pub proof fn law_caller_gets_every_value_whole<E>(
    messages: Seq<EvalJavaScriptIncomingMessage<E>>,
    broken: Option<E>,
    j: int,
)
    requires
        0 <= j < outputs_in(messages).len(),
        forall|i: int| 0 <= i <= j ==> #[trigger] outputs_in(messages)[i] is Value,
    ensures
        evaluated(messages, broken) matches Some(JavaScriptEvaluationView::Stream(stream))
            && stream.items.len() > j && stream.items[j] == Ok::<Seq<u8>, E>(
            encode_utf8(outputs_in(messages)[j]->Value_0@),
        ),
{
    let outputs = outputs_in(messages);
    let outcomes = outcomes_in(messages, broken);
    let later = outcomes.drop_first();
    assert(outputs[0] is Value);
    assert(outcomes[0] == Ok::<LoopResult<E>, E>(outputs[0]));
    let stream = StreamView { items: seq![value_item::<E>(outputs[0]->Value_0)], open: true };
    let values = later.take(j);
    assert forall|i: int| 0 <= i < values.len() implies is_value(#[trigger] values[i]) by {
        assert(values[i] == Ok::<LoopResult<E>, E>(outputs[i + 1]));
    }
    law_stream_holds_the_values(stream, values);
    lemma_pumped_in_two(stream, later, j);
    lemma_pumped_keeps_items(pumped(stream, values), later.skip(j));
    let held = stream.items + values_in(values);
    if j > 0 {
        assert(values[j - 1] == Ok::<LoopResult<E>, E>(outputs[j]));
        assert(held[j] == values_in(values)[j - 1]);
    }
    assert(pumped(stream, values).items[j] == held[j]);
}

proof fn lemma_pumped_in_two<E>(
    stream: StreamView<Result<Seq<u8>, E>>,
    outputs: Seq<Result<LoopResult<E>, E>>,
    k: int,
)
    requires
        0 <= k <= outputs.len(),
    ensures
        pumped(stream, outputs) == pumped(pumped(stream, outputs.take(k)), outputs.skip(k)),
    decreases k,
{
    if k == 0 {
        assert(outputs.take(0) =~= seq![]);
        assert(outputs.skip(0) =~= outputs);
    } else if stream.open {
        let next = received(stream, outputs[0]);
        lemma_pumped_in_two(next, outputs.drop_first(), k - 1);
        assert(outputs.take(k).drop_first() =~= outputs.drop_first().take(k - 1));
        assert(outputs.drop_first().skip(k - 1) =~= outputs.skip(k));
    }
}

/// A first result is followed by a stream exactly if it is an intermediate value,
/// and by the end of the process before anything is returned exactly if it is an end
/// and the evaluation a one-off operation. In every case the whole result is what the
/// caller gets, and the stream goes on in the same run.
pub proof fn law_first_result_decides_the_step<E>(run: RunView, output: LoopResult<E>)
    ensures
        step_after(run, output) is Spawn <==> output is Value,
        step_after(run, output) is WaitOrKill <==> output is End && run.kill,
        step_after(run, output) matches EvaluateStepView::Spawn { run: later, .. } ==> later == run,
        output matches LoopResult::End(Some(data)) ==> returned_by(step_after(run, output))
            == JavaScriptEvaluationView::<E>::Single(Ok(encode_utf8(data@))),
        output matches LoopResult::End(None) ==> returned_by(step_after(run, output)) is Empty,
        output matches LoopResult::Error(error) ==> returned_by(step_after(run, output))
            == JavaScriptEvaluationView::<E>::Single(Err(error)),
        output matches LoopResult::Value(data) ==> returned_by(step_after(run, output))
            == JavaScriptEvaluationView::<E>::Stream(
            StreamView { items: seq![Ok(encode_utf8(data@))], open: true },
        ),
        match step_after(run, output) {
            EvaluateStepView::WaitOrKill(evaluation) => evaluation,
            EvaluateStepView::Return(evaluation) => evaluation,
            EvaluateStepView::Spawn { evaluation, .. } => evaluation,
        } == returned_by(step_after(run, output)),
{
}

/// An evaluation shows what it holds: each value by its bytes, each error as it is,
/// and of a stream every item in its place and whether it is open.
pub proof fn law_evaluation_shows_what_it_holds<E>(evaluation: JavaScriptEvaluation<E>)
    ensures
        evaluation is Empty <==> evaluation@ is Empty,
        evaluation is Single <==> evaluation@ is Single,
        evaluation matches JavaScriptEvaluation::Single(Ok(value)) ==> evaluation@
            == JavaScriptEvaluationView::<E>::Single(Ok(value@)),
        evaluation matches JavaScriptEvaluation::Single(Err(error)) ==> evaluation@
            == JavaScriptEvaluationView::<E>::Single(Err(error)),
        evaluation matches JavaScriptEvaluation::Stream(stream) ==> (
        evaluation@ matches JavaScriptEvaluationView::Stream(shown) && shown.open == stream@.open
            && shown.items.len() == stream@.items.len() && forall|i: int|
            0 <= i < stream@.items.len() ==> match #[trigger] stream@.items[i] {
                Ok(value) => shown.items[i] == Ok::<Seq<u8>, E>(value@),
                Err(error) => shown.items[i] == Err::<Seq<u8>, E>(error),
            }),
{
}

/// A stream shows every item in its place, each value by its bytes and each error
/// as it is, and whether it is open.
pub proof fn law_stream_shows_what_it_holds<E>(stream: JavaScriptStream<E>)
    ensures
        stream_view(stream).open == stream@.open,
        stream_view(stream).items.len() == stream@.items.len(),
        forall|i: int|
            0 <= i < stream@.items.len() ==> match #[trigger] stream@.items[i] {
                Ok(value) => stream_view(stream).items[i] == Ok::<Seq<u8>, E>(value@),
                Err(error) => stream_view(stream).items[i] == Err::<Seq<u8>, E>(error),
            },
{
}

/// A step shows what it holds.
pub proof fn law_evaluate_step_shows_what_it_holds<E>(step: EvaluateStep<E>)
    ensures
        step matches EvaluateStep::WaitOrKill(finishing) ==> step@ == EvaluateStepView::WaitOrKill(
            finishing@,
        ),
        step matches EvaluateStep::Return(evaluation) ==> step@ == EvaluateStepView::Return(
            evaluation@,
        ),
        step matches EvaluateStep::Spawn { evaluation, pump } ==> step@
            == (EvaluateStepView::Spawn { evaluation: evaluation@, run: pump@ }),
{
}

/// The arguments of an evaluation are those that were given, all of them in order,
/// and the process ends with the evaluation exactly if there are none.
pub proof fn law_arguments_are_passed_on(ready: PoolReadyView, args: Seq<JsonValue>)
    ensures
        ready.with_arguments(args).args == args,
        ready.with_arguments(args).run.cwd == ready.cwd,
        ready.with_arguments(args).run.context_ident == ready.context_ident,
        ready.with_arguments(args).run.kill <==> args.len() == 0,
{
}

} // verus!
