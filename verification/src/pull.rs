//! Pulling messages from a worker until there is a result.
//!
//! The worker reports what it depends on along the way. Reading a dependency is
//! begun when it is reported, and awaited once the result is known: that makes
//! the caller run again when the dependency changes.

use std::collections::VecDeque;

use crate::dir_dependency::{GlobRequest, GlobRequestView};
use crate::issue::{BuildDependencyIssue, EvaluateEmittedErrorIssue, EvaluationIssue};
use crate::message::{EvalJavaScriptIncomingMessage, LoopResult};
use crate::path::{AssetIdent, FileSystemPath, PathView};
use vstd::prelude::*;

verus! {

/// A dependency that has to be read before the result is returned.
#[derive(Debug)]
pub enum Dependency {
    /// The content of a file.
    File(FileSystemPath),
    /// The files of a directory that match a glob.
    Dir(GlobRequest),
}

/// What a dependency refers to.
#[verifier::ext_equal]
pub enum DependencyView {
    File(PathView),
    Dir(GlobRequestView),
}

impl View for Dependency {
    type V = DependencyView;

    open spec fn view(&self) -> DependencyView {
        match self {
            Dependency::File(path) => DependencyView::File(path@),
            Dependency::Dir(request) => DependencyView::Dir(request@),
        }
    }
}

/// Something to be done on receipt of a message, before anything else.
#[derive(Debug)]
pub enum PullEffect<E> {
    /// Begin to read a file.
    ReadFile(FileSystemPath),
    /// Begin to list the files of a directory, and to depend on all of them.
    ReadGlob(GlobRequest),
    /// Report that a build dependency is not tracked.
    ReportBuildDependency(BuildDependencyIssue),
    /// Report an error that did not end the evaluation.
    ReportEmittedError(EvaluateEmittedErrorIssue<E>),
    /// Report the error that ended the evaluation.
    ReportEvaluation(EvaluationIssue<E>),
    /// Do not give the worker another job.
    DisallowReuse,
}

/// Waiting for a message.
#[derive(Debug)]
pub struct Receiving {
    cwd: FileSystemPath,
    context_ident: AssetIdent,
    file_dependencies: VecDeque<FileSystemPath>,
    dir_dependencies: VecDeque<GlobRequest>,
}

/// What is known while waiting for a message: the directory and the asset of the
/// evaluation, and the dependencies reported so far.
#[verifier::ext_equal]
pub struct ReceivingView {
    pub cwd: PathView,
    pub context_ident: PathView,
    pub files: Seq<PathView>,
    pub dirs: Seq<GlobRequestView>,
}

spec fn path_views(paths: Seq<FileSystemPath>) -> Seq<PathView> {
    paths.map_values(|p: FileSystemPath| p@)
}

spec fn request_views(requests: Seq<GlobRequest>) -> Seq<GlobRequestView> {
    requests.map_values(|r: GlobRequest| r@)
}

spec fn dependency_views(dependencies: Seq<Dependency>) -> Seq<DependencyView> {
    dependencies.map_values(|d: Dependency| d@)
}

impl View for Receiving {
    type V = ReceivingView;

    closed spec fn view(&self) -> ReceivingView {
        ReceivingView {
            cwd: self.cwd@,
            context_ident: self.context_ident@,
            files: path_views(self.file_dependencies@),
            dirs: request_views(self.dir_dependencies@),
        }
    }
}

/// Waiting for a dependency to be read, with the result at hand.
#[derive(Debug)]
pub struct Awaiting<E> {
    current: Dependency,
    pending: VecDeque<Dependency>,
    output: LoopResult<E>,
}

/// The dependency that is waited for, those that follow, and the result.
#[verifier::ext_equal]
pub struct AwaitingView<E> {
    pub current: DependencyView,
    pub pending: Seq<DependencyView>,
    pub output: LoopResult<E>,
}

impl<E> View for Awaiting<E> {
    type V = AwaitingView<E>;

    closed spec fn view(&self) -> AwaitingView<E> {
        AwaitingView {
            current: self.current@,
            pending: dependency_views(self.pending@),
            output: self.output,
        }
    }
}

/// What comes next while pulling.
#[derive(Debug)]
pub enum PullStep<E> {
    /// Receive the next message.
    Receive(Receiving),
    /// Wait for a dependency to be read.
    Await(Awaiting<E>),
    /// Return the result.
    Return(LoopResult<E>),
}

#[verifier::ext_equal]
pub enum PullStepView<E> {
    Receive(ReceivingView),
    Await(AwaitingView<E>),
    Return(LoopResult<E>),
}

impl<E> View for PullStep<E> {
    type V = PullStepView<E>;

    open spec fn view(&self) -> PullStepView<E> {
        match self {
            PullStep::Receive(receiving) => PullStepView::Receive(receiving@),
            PullStep::Await(awaiting) => PullStepView::Await(awaiting@),
            PullStep::Return(output) => PullStepView::Return(*output),
        }
    }
}

/// A message that was taken in: what to do at once, and what comes next.
#[derive(Debug)]
pub struct Received<E> {
    pub effects: Vec<PullEffect<E>>,
    pub next: PullStep<E>,
}

/// The files that a message reports, relative to `cwd`: one or none.
pub open spec fn files_of<E>(
    cwd: PathView,
    message: EvalJavaScriptIncomingMessage<E>,
) -> Seq<PathView> {
    match message {
        EvalJavaScriptIncomingMessage::FileDependency { path } => seq![cwd.join(path@)],
        _ => seq![],
    }
}

/// The directory listings that a message reports, relative to `cwd`: one or none.
pub open spec fn dirs_of<E>(
    cwd: PathView,
    message: EvalJavaScriptIncomingMessage<E>,
) -> Seq<GlobRequestView> {
    match message {
        EvalJavaScriptIncomingMessage::DirDependency { path, glob } => seq![
            GlobRequestView { path: cwd.join(path@), glob: glob@, dot_files: false },
        ],
        _ => seq![],
    }
}

/// The dependencies in the order in which they are awaited: files, then
/// directories.
pub open spec fn await_order(files: Seq<PathView>, dirs: Seq<GlobRequestView>) -> Seq<
    DependencyView,
> {
    files.map_values(|f: PathView| DependencyView::File(f)) + dirs.map_values(
        |d: GlobRequestView| DependencyView::Dir(d),
    )
}

/// What comes next when `queue` is left to be read before `output` is returned.
pub open spec fn reading<E>(queue: Seq<DependencyView>, output: LoopResult<E>) -> PullStepView<E> {
    if queue.len() == 0 {
        PullStepView::Return(output)
    } else {
        PullStepView::Await(
            AwaitingView { current: queue[0], pending: queue.drop_first(), output },
        )
    }
}

impl ReceivingView {
    /// Nothing reported yet.
    pub open spec fn start(cwd: PathView, context_ident: PathView) -> ReceivingView {
        ReceivingView { cwd, context_ident, files: seq![], dirs: seq![] }
    }

    /// What is known after `message`.
    pub open spec fn with<E>(self, message: EvalJavaScriptIncomingMessage<E>) -> ReceivingView {
        ReceivingView {
            files: self.files + files_of(self.cwd, message),
            dirs: self.dirs + dirs_of(self.cwd, message),
            ..self
        }
    }

    /// What comes after `message`.
    pub open spec fn next<E>(self, message: EvalJavaScriptIncomingMessage<E>) -> PullStepView<E> {
        match message.output() {
            Some(output) => reading(await_order(self.files, self.dirs), output),
            None => PullStepView::Receive(self.with(message)),
        }
    }

    /// Whether `effects` is what has to be done on receipt of `message`.
    pub open spec fn asks_for<E: Clone>(
        self,
        message: EvalJavaScriptIncomingMessage<E>,
        effects: Seq<PullEffect<E>>,
    ) -> bool {
        match message {
            EvalJavaScriptIncomingMessage::FileDependency { path } => {
                &&& effects.len() == 1
                &&& effects[0] matches PullEffect::ReadFile(file)
                &&& file@ == self.cwd.join(path@)
            },
            EvalJavaScriptIncomingMessage::BuildDependency { path } => {
                &&& effects.len() == 1
                &&& effects[0] matches PullEffect::ReportBuildDependency(issue)
                &&& issue.context_ident@ == self.context_ident
                &&& issue.path@ == self.cwd.join(path@)
            },
            EvalJavaScriptIncomingMessage::DirDependency { path, glob } => {
                &&& effects.len() == 1
                &&& effects[0] matches PullEffect::ReadGlob(request)
                &&& request@.path == self.cwd.join(path@)
                &&& request@.glob == glob@
                &&& !request@.dot_files
            },
            EvalJavaScriptIncomingMessage::EmittedError { severity, error } => {
                &&& effects.len() == 1
                &&& effects[0] matches PullEffect::ReportEmittedError(issue)
                &&& issue.context@ == self.context_ident
                &&& issue.cwd@ == self.cwd
                &&& issue.severity == severity
                &&& issue.error == error
            },
            EvalJavaScriptIncomingMessage::Value { data } => effects.len() == 0,
            EvalJavaScriptIncomingMessage::End { data } => effects.len() == 0,
            EvalJavaScriptIncomingMessage::Error(error) => {
                &&& effects.len() == 2
                &&& effects[1] is DisallowReuse
                &&& effects[0] matches PullEffect::ReportEvaluation(issue)
                &&& issue.context_ident@ == self.context_ident
                &&& issue.cwd@ == self.cwd
                &&& cloned(error, issue.error)
            },
        }
    }
}

/// Starts to pull messages from a worker that runs in `cwd`, on behalf of the
/// asset `context_ident`.
pub fn pull_operation(cwd: FileSystemPath, context_ident: AssetIdent) -> (receiving: Receiving)
    ensures
        receiving@ == ReceivingView::start(cwd@, context_ident@),
        receiving@ == (ReceivingView {
            cwd: cwd@,
            context_ident: context_ident@,
            files: seq![],
            dirs: seq![],
        }),
{
    let receiving = Receiving {
        cwd,
        context_ident,
        file_dependencies: VecDeque::new(),
        dir_dependencies: VecDeque::new(),
    };
    proof {
        assert(receiving@.files =~= seq![]);
        assert(receiving@.dirs =~= seq![]);
    }
    receiving
}

/// The step that reads `queue` and then returns `output`.
fn read_queue<E>(mut queue: VecDeque<Dependency>, output: LoopResult<E>) -> (step: PullStep<E>)
    ensures
        step@ == reading(dependency_views(queue@), output),
        queue@.len() == 0 <==> step is Return,
        step matches PullStep::Return(returned) ==> returned == output,
        queue@.len() > 0 ==> (step matches PullStep::Await(awaiting) && awaiting@.current
            == queue@[0]@ && awaiting@.pending == dependency_views(queue@.drop_first())
            && awaiting@.output == output),
{
    let ghost whole = queue@;
    match queue.pop_front() {
        Some(current) => {
            let step = PullStep::Await(Awaiting { current, pending: queue, output });
            proof {
                assert(dependency_views(queue@) =~= dependency_views(whole).drop_first());
                assert(queue@ =~= whole.drop_first());
            }
            step
        },
        None => PullStep::Return(output),
    }
}

impl Receiving {
    /// The dependencies reported so far, in the order in which they are awaited.
    fn into_queue(self) -> (queue: VecDeque<Dependency>)
        ensures
            dependency_views(queue@) == await_order(self@.files, self@.dirs),
            queue@.len() == self@.files.len() + self@.dirs.len(),
            forall|i: int|
                0 <= i < self@.files.len() ==> queue@[i]@ == DependencyView::File(
                    #[trigger] self@.files[i],
                ),
            forall|j: int|
                0 <= j < self@.dirs.len() ==> queue@[self@.files.len() + j]@ == DependencyView::Dir(
                    #[trigger] self@.dirs[j],
                ),
    {
        let Receiving { mut file_dependencies, mut dir_dependencies, .. } = self;
        let ghost order = await_order(
            path_views(file_dependencies@),
            request_views(dir_dependencies@),
        );
        let mut queue: VecDeque<Dependency> = VecDeque::new();
        proof {
            assert(dependency_views(queue@) + order =~= order);
        }
        while file_dependencies.len() > 0
            invariant
                dependency_views(queue@) + await_order(
                    path_views(file_dependencies@),
                    request_views(dir_dependencies@),
                ) == order,
            decreases file_dependencies@.len(),
        {
            let ghost queued = queue@;
            let ghost left = file_dependencies@;
            if let Some(path) = file_dependencies.pop_front() {
                queue.push_back(Dependency::File(path));
                proof {
                    assert(dependency_views(queue@) + await_order(
                        path_views(file_dependencies@),
                        request_views(dir_dependencies@),
                    ) =~= dependency_views(queued) + await_order(
                        path_views(left),
                        request_views(dir_dependencies@),
                    ));
                }
            }
        }
        while dir_dependencies.len() > 0
            invariant
                file_dependencies@.len() == 0,
                dependency_views(queue@) + await_order(
                    path_views(file_dependencies@),
                    request_views(dir_dependencies@),
                ) == order,
            decreases dir_dependencies@.len(),
        {
            let ghost queued = queue@;
            let ghost left = dir_dependencies@;
            if let Some(request) = dir_dependencies.pop_front() {
                queue.push_back(Dependency::Dir(request));
                proof {
                    assert(dependency_views(queue@) + await_order(
                        path_views(file_dependencies@),
                        request_views(dir_dependencies@),
                    ) =~= dependency_views(queued) + await_order(
                        path_views(file_dependencies@),
                        request_views(left),
                    ));
                }
            }
        }
        proof {
            assert(dependency_views(queue@) =~= order);
            law_queue_holds_every_dependency_once(self@.files, self@.dirs);
            assert forall|i: int| 0 <= i < self@.files.len() implies queue@[i]@
                == DependencyView::File(#[trigger] self@.files[i]) by {
                assert(dependency_views(queue@)[i] == queue@[i]@);
            }
            assert forall|j: int| 0 <= j < self@.dirs.len() implies queue@[self@.files.len() + j]@
                == DependencyView::Dir(#[trigger] self@.dirs[j]) by {
                let i = self@.files.len() + j;
                assert(dependency_views(queue@)[i] == queue@[i]@);
            }
        }
        queue
    }

    /// Takes in the next message, or the failure to receive one.
    ///
    /// A failure ends the pulling at once: nothing that was reported is awaited.
    pub fn receive<E: Clone, F>(
        self,
        message: Result<EvalJavaScriptIncomingMessage<E>, F>,
    ) -> (received: Result<Received<E>, F>)
        ensures
            match message {
                Ok(m) => {
                    &&& received matches Ok(r)
                    &&& r.next@ == self@.next(m)
                    &&& self@.asks_for(m, r.effects@)
                },
                Err(failure) => received == Err::<Received<E>, F>(failure),
            },
    {
        let mut this = self;
        let mut effects: Vec<PullEffect<E>> = Vec::new();
        let message = match message {
            Ok(m) => m,
            Err(failure) => return Err(failure),
        };
        let ghost m = message;
        match message {
            EvalJavaScriptIncomingMessage::Error(error) => {
                effects.push(
                    PullEffect::ReportEvaluation(
                        EvaluationIssue {
                            error: error.clone(),
                            context_ident: this.context_ident.clone(),
                            cwd: this.cwd.clone(),
                        },
                    ),
                );
                // Do not reuse the process in case of error
                effects.push(PullEffect::DisallowReuse);
                let next = read_queue(this.into_queue(), LoopResult::Error(error));
                Ok(Received { effects, next })
            },
            EvalJavaScriptIncomingMessage::Value { data } => {
                let next = read_queue(this.into_queue(), LoopResult::Value(data));
                Ok(Received { effects, next })
            },
            EvalJavaScriptIncomingMessage::End { data } => {
                let next = read_queue(this.into_queue(), LoopResult::End(data));
                Ok(Received { effects, next })
            },
            EvalJavaScriptIncomingMessage::FileDependency { path } => {
                let file = this.cwd.join(path.as_str());
                this.file_dependencies.push_back(file.clone());
                effects.push(PullEffect::ReadFile(file));
                proof {
                    assert(this@ =~= self@.with(m));
                }
                Ok(Received { effects, next: PullStep::Receive(this) })
            },
            EvalJavaScriptIncomingMessage::BuildDependency { path } => {
                effects.push(
                    PullEffect::ReportBuildDependency(
                        BuildDependencyIssue {
                            context_ident: this.context_ident.clone(),
                            path: this.cwd.join(path.as_str()),
                        },
                    ),
                );
                proof {
                    assert(this@ =~= self@.with(m));
                }
                Ok(Received { effects, next: PullStep::Receive(this) })
            },
            EvalJavaScriptIncomingMessage::DirDependency { path, glob } => {
                let request = GlobRequest {
                    path: this.cwd.join(path.as_str()),
                    glob,
                    dot_files: false,
                };
                this.dir_dependencies.push_back(request.clone());
                effects.push(PullEffect::ReadGlob(request));
                proof {
                    assert(this@ =~= self@.with(m));
                }
                Ok(Received { effects, next: PullStep::Receive(this) })
            },
            EvalJavaScriptIncomingMessage::EmittedError { severity, error } => {
                effects.push(
                    PullEffect::ReportEmittedError(
                        EvaluateEmittedErrorIssue {
                            context: this.context_ident.path(),
                            cwd: this.cwd.clone(),
                            error,
                            severity,
                        },
                    ),
                );
                proof {
                    assert(this@ =~= self@.with(m));
                }
                Ok(Received { effects, next: PullStep::Receive(this) })
            },
        }
    }
}

impl<E> Awaiting<E> {
    /// The dependency that is waited for.
    pub fn current(&self) -> (current: &Dependency)
        ensures
            current@ == self@.current,
    {
        &self.current
    }

    /// Goes on after the current dependency was read, or fails with it.
    pub fn resolve<F>(self, read: Result<(), F>) -> (step: Result<PullStep<E>, F>)
        ensures
            match read {
                Ok(()) => {
                    &&& step matches Ok(s)
                    &&& s@ == reading(self@.pending, self@.output)
                    &&& self@.pending.len() == 0 ==> s@ == PullStepView::Return(self@.output)
                    &&& self@.pending.len() > 0 ==> s@ == PullStepView::Await(
                        AwaitingView {
                            current: self@.pending[0],
                            pending: self@.pending.drop_first(),
                            output: self@.output,
                        },
                    )
                },
                Err(failure) => step == Err::<PullStep<E>, F>(failure),
            },
    {
        match read {
            Ok(()) => Ok(read_queue(self.pending, self.output)),
            Err(failure) => Err(failure),
        }
    }
}

/// Takes in messages one after the other, until there is a result.
pub open spec fn pulled<E>(
    state: ReceivingView,
    messages: Seq<EvalJavaScriptIncomingMessage<E>>,
) -> PullStepView<E>
    decreases messages.len(),
{
    if messages.len() == 0 {
        PullStepView::Receive(state)
    } else {
        match state.next(messages[0]) {
            PullStepView::Receive(later) => pulled(later, messages.drop_first()),
            step => step,
        }
    }
}

/// Answers one awaited dependency after the other, until one fails or none is
/// left.
pub open spec fn settled<E, F>(step: PullStepView<E>, reads: Seq<Result<(), F>>) -> Result<
    PullStepView<E>,
    F,
>
    decreases reads.len(),
{
    match step {
        PullStepView::Await(awaiting) if reads.len() > 0 => match reads[0] {
            Ok(()) => settled(reading(awaiting.pending, awaiting.output), reads.drop_first()),
            Err(failure) => Err(failure),
        },
        _ => Ok(step),
    }
}

/// The files that a sequence of messages reports, in order.
pub open spec fn files_in<E>(
    cwd: PathView,
    messages: Seq<EvalJavaScriptIncomingMessage<E>>,
) -> Seq<PathView>
    decreases messages.len(),
{
    if messages.len() == 0 {
        seq![]
    } else {
        files_of(cwd, messages[0]) + files_in(cwd, messages.drop_first())
    }
}

/// The directory listings that a sequence of messages reports, in order.
pub open spec fn dirs_in<E>(
    cwd: PathView,
    messages: Seq<EvalJavaScriptIncomingMessage<E>>,
) -> Seq<GlobRequestView>
    decreases messages.len(),
{
    if messages.len() == 0 {
        seq![]
    } else {
        dirs_of(cwd, messages[0]) + dirs_in(cwd, messages.drop_first())
    }
}

/// The position of the first message that carries a result.
pub open spec fn first_output_at<E>(
    messages: Seq<EvalJavaScriptIncomingMessage<E>>,
    k: int,
) -> bool {
    &&& 0 <= k < messages.len()
    &&& messages[k].output() is Some
    &&& forall|i: int| 0 <= i < k ==> (#[trigger] messages[i]).output() is None
}

proof fn lemma_pulled<E>(
    state: ReceivingView,
    messages: Seq<EvalJavaScriptIncomingMessage<E>>,
    k: int,
)
    requires
        first_output_at(messages, k),
    ensures
        pulled(state, messages) == reading(
            await_order(
                state.files + files_in(state.cwd, messages.take(k)),
                state.dirs + dirs_in(state.cwd, messages.take(k)),
            ),
            messages[k].output()->0,
        ),
    decreases messages.len(),
{
    if k == 0 {
        assert(state.files + files_in(state.cwd, messages.take(0)) =~= state.files);
        assert(state.dirs + dirs_in(state.cwd, messages.take(0)) =~= state.dirs);
    } else {
        let rest = messages.drop_first();
        assert(messages[0].output() is None);
        assert forall|i: int| 0 <= i < k - 1 implies (#[trigger] rest[i]).output() is None by {
            assert(rest[i] == messages[i + 1]);
        }
        assert(rest[k - 1] == messages[k]);
        let later = state.with(messages[0]);
        lemma_pulled(later, rest, k - 1);
        assert(messages.take(k).drop_first() =~= rest.take(k - 1));
        assert(messages.take(k)[0] == messages[0]);
        assert(later.files + files_in(state.cwd, rest.take(k - 1)) =~= state.files + files_in(
            state.cwd,
            messages.take(k),
        ));
        assert(later.dirs + dirs_in(state.cwd, rest.take(k - 1)) =~= state.dirs + dirs_in(
            state.cwd,
            messages.take(k),
        ));
    }
}

proof fn lemma_pulled_on<E>(state: ReceivingView, messages: Seq<EvalJavaScriptIncomingMessage<E>>)
    requires
        forall|i: int| 0 <= i < messages.len() ==> (#[trigger] messages[i]).output() is None,
    ensures
        pulled(state, messages) == PullStepView::<E>::Receive(
            ReceivingView {
                files: state.files + files_in(state.cwd, messages),
                dirs: state.dirs + dirs_in(state.cwd, messages),
                ..state
            },
        ),
    decreases messages.len(),
{
    if messages.len() == 0 {
        assert(state.files + files_in(state.cwd, messages) =~= state.files);
        assert(state.dirs + dirs_in(state.cwd, messages) =~= state.dirs);
    } else {
        let rest = messages.drop_first();
        assert(messages[0].output() is None);
        assert forall|i: int| 0 <= i < rest.len() implies (#[trigger] rest[i]).output() is None by {
            assert(rest[i] == messages[i + 1]);
        }
        let later = state.with(messages[0]);
        lemma_pulled_on(later, rest);
        assert(later.files + files_in(state.cwd, rest) =~= state.files + files_in(
            state.cwd,
            messages,
        ));
        assert(later.dirs + dirs_in(state.cwd, rest) =~= state.dirs + dirs_in(state.cwd, messages));
    }
}

proof fn lemma_settled_after<E, F>(
    queue: Seq<DependencyView>,
    output: LoopResult<E>,
    reads: Seq<Result<(), F>>,
)
    requires
        reads.len() <= queue.len(),
        forall|i: int| 0 <= i < reads.len() ==> #[trigger] reads[i] is Ok,
    ensures
        settled(reading(queue, output), reads) == Ok::<PullStepView<E>, F>(
            reading(queue.skip(reads.len() as int), output),
        ),
    decreases reads.len(),
{
    if reads.len() == 0 {
        assert(queue.skip(0) =~= queue);
    } else {
        assert(reads[0] is Ok);
        let rest = reads.drop_first();
        assert forall|i: int| 0 <= i < rest.len() implies #[trigger] rest[i] is Ok by {
            assert(rest[i] == reads[i + 1]);
        }
        lemma_settled_after(queue.drop_first(), output, rest);
        assert(queue.drop_first().skip(rest.len() as int) =~= queue.skip(reads.len() as int));
    }
}

/// The first message that carries a result decides what the pulling comes to;
/// whatever the worker sends after it plays no part. Before the result is
/// returned, the files and then the directories that were reported up to that
/// message are awaited, each in the order of the reports.
pub proof fn law_first_output_decides<E>(
    cwd: PathView,
    context_ident: PathView,
    messages: Seq<EvalJavaScriptIncomingMessage<E>>,
    k: int,
)
    requires
        first_output_at(messages, k),
    ensures
        pulled(ReceivingView::start(cwd, context_ident), messages) == reading(
            await_order(files_in(cwd, messages.take(k)), dirs_in(cwd, messages.take(k))),
            messages[k].output()->0,
        ),
{
    let start = ReceivingView::start(cwd, context_ident);
    lemma_pulled(start, messages, k);
    assert(start.files + files_in(cwd, messages.take(k)) =~= files_in(cwd, messages.take(k)));
    assert(start.dirs + dirs_in(cwd, messages.take(k)) =~= dirs_in(cwd, messages.take(k)));
}

/// As long as no message carries a result, messages are received, and what they
/// report is kept.
pub proof fn law_pulling_goes_on_without_output<E>(
    cwd: PathView,
    context_ident: PathView,
    messages: Seq<EvalJavaScriptIncomingMessage<E>>,
)
    requires
        forall|i: int| 0 <= i < messages.len() ==> (#[trigger] messages[i]).output() is None,
    ensures
        pulled(ReceivingView::start(cwd, context_ident), messages) == PullStepView::<E>::Receive(
            ReceivingView {
                cwd,
                context_ident,
                files: files_in(cwd, messages),
                dirs: dirs_in(cwd, messages),
            },
        ),
{
    let start = ReceivingView::start(cwd, context_ident);
    lemma_pulled_on(start, messages);
    assert(start.files + files_in(cwd, messages) =~= files_in(cwd, messages));
    assert(start.dirs + dirs_in(cwd, messages) =~= dirs_in(cwd, messages));
}

/// The results that a sequence of messages carries, in order.
pub open spec fn outputs_in<E>(messages: Seq<EvalJavaScriptIncomingMessage<E>>) -> Seq<
    LoopResult<E>,
>
    decreases messages.len(),
{
    if messages.len() == 0 {
        seq![]
    } else {
        match messages[0].output() {
            Some(output) => seq![output] + outputs_in(messages.drop_first()),
            None => outputs_in(messages.drop_first()),
        }
    }
}

/// Pulling again and again gives the results that the messages carry, one by one
/// and in order: pulling stops at the first of them, and what follows that message
/// carries the others.
pub proof fn law_each_pull_gives_the_next_output<E>(
    messages: Seq<EvalJavaScriptIncomingMessage<E>>,
    k: int,
)
    requires
        first_output_at(messages, k),
    ensures
        outputs_in(messages) == seq![messages[k].output()->0] + outputs_in(messages.skip(k + 1)),
    decreases k,
{
    if k == 0 {
        assert(messages.drop_first() =~= messages.skip(1));
    } else {
        let rest = messages.drop_first();
        assert(messages[0].output() is None);
        assert forall|i: int| 0 <= i < k - 1 implies (#[trigger] rest[i]).output() is None by {
            assert(rest[i] == messages[i + 1]);
        }
        assert(rest[k - 1] == messages[k]);
        law_each_pull_gives_the_next_output(rest, k - 1);
        assert(rest.skip(k) =~= messages.skip(k + 1));
    }
}

/// The dependencies are awaited in the order of the queue: after as many
/// successful reads as precede it, a dependency is the one that is waited for.
pub proof fn law_dependencies_are_awaited_in_order<E, F>(
    queue: Seq<DependencyView>,
    output: LoopResult<E>,
    reads: Seq<Result<(), F>>,
)
    requires
        reads.len() < queue.len(),
        forall|i: int| 0 <= i < reads.len() ==> #[trigger] reads[i] is Ok,
    ensures
        settled(reading(queue, output), reads) matches Ok(PullStepView::Await(awaiting))
            && awaiting.current == queue[reads.len() as int] && awaiting.output == output,
{
    lemma_settled_after(queue, output, reads);
}

/// The result is returned once every dependency was read, and not before.
pub proof fn law_output_follows_every_read<E, F>(
    queue: Seq<DependencyView>,
    output: LoopResult<E>,
    reads: Seq<Result<(), F>>,
)
    requires
        reads.len() <= queue.len(),
        forall|i: int| 0 <= i < reads.len() ==> #[trigger] reads[i] is Ok,
    ensures
        settled(reading(queue, output), reads) == Ok::<PullStepView<E>, F>(
            PullStepView::Return(output),
        ) <==> reads.len() == queue.len(),
{
    lemma_settled_after(queue, output, reads);
}

/// The first dependency that cannot be read fails the pulling with its failure,
/// whatever the worker had answered.
pub proof fn law_first_failed_read_wins<E, F>(
    queue: Seq<DependencyView>,
    output: LoopResult<E>,
    reads: Seq<Result<(), F>>,
    k: int,
)
    requires
        0 <= k < reads.len(),
        k < queue.len(),
        reads[k] is Err,
        forall|i: int| 0 <= i < k ==> #[trigger] reads[i] is Ok,
    ensures
        settled(reading(queue, output), reads) == Err::<PullStepView<E>, F>(reads[k]->Err_0),
    decreases k,
{
    if k > 0 {
        assert(reads[0] is Ok);
        let rest = reads.drop_first();
        assert forall|i: int| 0 <= i < k - 1 implies #[trigger] rest[i] is Ok by {
            assert(rest[i] == reads[i + 1]);
        }
        assert(rest[k - 1] == reads[k]);
        law_first_failed_read_wins(queue.drop_first(), output, rest, k - 1);
    }
}

/// What is awaited in the end is what was begun on receipt: a message asks to
/// begin reading a file, or the files of a directory, exactly when it adds that
/// dependency to those that are awaited.
pub proof fn law_begun_reads_are_awaited<E: Clone>(
    state: ReceivingView,
    message: EvalJavaScriptIncomingMessage<E>,
    effects: Seq<PullEffect<E>>,
)
    requires
        state.asks_for(message, effects),
    ensures
        forall|path: PathView|
            files_of(state.cwd, message).contains(path) <==> exists|i: int|
                0 <= i < effects.len() && (#[trigger] effects[i] matches PullEffect::ReadFile(
                    file,
                ) && file@ == path),
        forall|request: GlobRequestView|
            dirs_of(state.cwd, message).contains(request) <==> exists|i: int|
                0 <= i < effects.len() && (#[trigger] effects[i] matches PullEffect::ReadGlob(
                    listing,
                ) && listing@ == request),
{
    if let EvalJavaScriptIncomingMessage::FileDependency { path } = message {
        assert(files_of(state.cwd, message)[0] == state.cwd.join(path@));
        assert(effects[0] is ReadFile);
    }
    if let EvalJavaScriptIncomingMessage::DirDependency { path, glob } = message {
        assert(dirs_of(state.cwd, message)[0] == GlobRequestView {
            path: state.cwd.join(path@),
            glob: glob@,
            dot_files: false,
        });
        assert(effects[0] is ReadGlob);
    }
}

/// A worker is kept from further jobs on receipt of an error that ends the
/// evaluation, and on receipt of no other message.
pub proof fn law_only_a_failed_worker_is_not_reused<E: Clone>(
    state: ReceivingView,
    message: EvalJavaScriptIncomingMessage<E>,
    effects: Seq<PullEffect<E>>,
)
    requires
        state.asks_for(message, effects),
    ensures
        (exists|i: int| 0 <= i < effects.len() && #[trigger] effects[i] is DisallowReuse)
            <==> message is Error,
{
    if message is Error {
        assert(effects[1] is DisallowReuse);
    }
}

/// The queue that is awaited holds every reported dependency once: the files at
/// the front, each in its place, and behind them the directories, each in its place.
pub proof fn law_queue_holds_every_dependency_once(
    files: Seq<PathView>,
    dirs: Seq<GlobRequestView>,
)
    ensures
        await_order(files, dirs).len() == files.len() + dirs.len(),
        forall|i: int|
            0 <= i < files.len() ==> await_order(files, dirs)[i] == DependencyView::File(
                #[trigger] files[i],
            ),
        forall|j: int|
            0 <= j < dirs.len() ==> await_order(files, dirs)[files.len() + j]
                == DependencyView::Dir(#[trigger] dirs[j]),
{
}

/// Of a queue, the first dependency is waited for, all others stay in their order,
/// and the result is returned only when the queue is empty.
pub proof fn law_queue_is_read_from_the_front<E>(
    queue: Seq<DependencyView>,
    output: LoopResult<E>,
)
    ensures
        reading(queue, output) is Return <==> queue.len() == 0,
        reading(queue, output) matches PullStepView::Return(returned) ==> returned == output,
        queue.len() > 0 ==> (reading(queue, output) matches PullStepView::Await(awaiting) && seq![
            awaiting.current,
        ] + awaiting.pending == queue && awaiting.output == output),
{
    if queue.len() > 0 {
        assert(seq![queue[0]] + queue.drop_first() =~= queue);
    }
}

/// Pulling starts with nothing reported.
pub proof fn law_nothing_is_reported_at_first(cwd: PathView, context_ident: PathView)
    ensures
        ReceivingView::start(cwd, context_ident) == (ReceivingView {
            cwd,
            context_ident,
            files: seq![],
            dirs: seq![],
        }),
{
}

/// A message without a result is followed by the next message. What was reported
/// before stays as it is; a file or a directory is added behind it, as it is named
/// relative to the working directory; nothing else adds anything.
pub proof fn law_reports_are_kept<E>(
    state: ReceivingView,
    message: EvalJavaScriptIncomingMessage<E>,
)
    requires
        !(message is Value),
        !(message is End),
        !(message is Error),
    ensures
        state.next(message) matches PullStepView::Receive(later) && {
            &&& later.cwd == state.cwd
            &&& later.context_ident == state.context_ident
            &&& match message {
                EvalJavaScriptIncomingMessage::FileDependency { path } => later.files
                    == state.files.push(
                    PathView { path: state.cwd.path, joins: state.cwd.joins.push(path@) },
                ),
                _ => later.files == state.files,
            }
            &&& match message {
                EvalJavaScriptIncomingMessage::DirDependency { path, glob } => later.dirs
                    == state.dirs.push(
                    GlobRequestView {
                        path: PathView {
                            path: state.cwd.path,
                            joins: state.cwd.joins.push(path@),
                        },
                        glob: glob@,
                        dot_files: false,
                    },
                ),
                _ => later.dirs == state.dirs,
            }
        },
{
    let later = state.with(message);
    match message {
        EvalJavaScriptIncomingMessage::FileDependency { path } => {
            assert(later.files =~= state.files.push(state.cwd.join(path@)));
            assert(later.dirs =~= state.dirs);
        },
        EvalJavaScriptIncomingMessage::DirDependency { path, glob } => {
            assert(later.files =~= state.files);
            assert(later.dirs =~= state.dirs.push(
                GlobRequestView { path: state.cwd.join(path@), glob: glob@, dot_files: false },
            ));
        },
        _ => {
            assert(later.files =~= state.files);
            assert(later.dirs =~= state.dirs);
        },
    }
}

/// A message with a result ends the receiving. The result is that of the message,
/// whole, and all that was reported is waited for before it is returned: every file
/// in the order of the reports, then every directory.
pub proof fn law_result_waits_for_every_report<E>(
    state: ReceivingView,
    message: EvalJavaScriptIncomingMessage<E>,
)
    requires
        message is Value || message is End || message is Error,
    ensures
        ({
            let output = match message {
                EvalJavaScriptIncomingMessage::Value { data } => LoopResult::Value(data),
                EvalJavaScriptIncomingMessage::End { data } => LoopResult::End(data),
                _ => LoopResult::Error(message->Error_0),
            };
            match state.next(message) {
                PullStepView::Receive(_) => false,
                PullStepView::Return(returned) => returned == output && state.files.len() == 0
                    && state.dirs.len() == 0,
                PullStepView::Await(awaiting) => {
                    let queue = seq![awaiting.current] + awaiting.pending;
                    &&& awaiting.output == output
                    &&& queue.len() == state.files.len() + state.dirs.len()
                    &&& forall|i: int|
                        0 <= i < state.files.len() ==> queue[i] == DependencyView::File(
                            #[trigger] state.files[i],
                        )
                    &&& forall|j: int|
                        0 <= j < state.dirs.len() ==> queue[state.files.len() + j]
                            == DependencyView::Dir(#[trigger] state.dirs[j])
                },
            }
        }),
{
    let queue = await_order(state.files, state.dirs);
    law_queue_holds_every_dependency_once(state.files, state.dirs);
    law_queue_is_read_from_the_front(queue, message.output()->0);
}

/// Whatever a worker reported before its result is among what is waited for: each
/// file, and each directory with its glob, as named relative to the working
/// directory.
pub proof fn law_every_reported_dependency_is_awaited<E>(
    cwd: PathView,
    context_ident: PathView,
    messages: Seq<EvalJavaScriptIncomingMessage<E>>,
    k: int,
    i: int,
)
    requires
        first_output_at(messages, k),
        0 <= i < k,
        messages[i] is FileDependency || messages[i] is DirDependency,
    ensures
        pulled(ReceivingView::start(cwd, context_ident), messages) matches PullStepView::Await(
            awaiting,
        ) && {
            let queue = seq![awaiting.current] + awaiting.pending;
            &&& messages[i] matches EvalJavaScriptIncomingMessage::FileDependency { path }
                ==> queue.contains(
                DependencyView::File(PathView { path: cwd.path, joins: cwd.joins.push(path@) }),
            )
            &&& messages[i] matches EvalJavaScriptIncomingMessage::DirDependency { path, glob }
                ==> queue.contains(
                DependencyView::Dir(
                    GlobRequestView {
                        path: PathView { path: cwd.path, joins: cwd.joins.push(path@) },
                        glob: glob@,
                        dot_files: false,
                    },
                ),
            )
        },
{
    law_first_output_decides(cwd, context_ident, messages, k);
    let before = messages.take(k);
    let files = files_in(cwd, before);
    let dirs = dirs_in(cwd, before);
    let queue = await_order(files, dirs);
    lemma_reports_are_collected(cwd, before, i);
    law_queue_holds_every_dependency_once(files, dirs);
    assert(before[i] == messages[i]);
    match messages[i] {
        EvalJavaScriptIncomingMessage::FileDependency { path } => {
            let at = files.index_of(cwd.join(path@));
            assert(files[at] == cwd.join(path@));
            assert(queue[at] == DependencyView::File(cwd.join(path@)));
        },
        EvalJavaScriptIncomingMessage::DirDependency { path, glob } => {
            let request = GlobRequestView {
                path: cwd.join(path@),
                glob: glob@,
                dot_files: false,
            };
            let at = dirs.index_of(request);
            assert(dirs[at] == request);
            assert(queue[files.len() + at] == DependencyView::Dir(request));
        },
        _ => {},
    }
    law_queue_is_read_from_the_front(queue, messages[k].output()->0);
}

proof fn lemma_reports_are_collected<E>(
    cwd: PathView,
    messages: Seq<EvalJavaScriptIncomingMessage<E>>,
    i: int,
)
    requires
        0 <= i < messages.len(),
    ensures
        messages[i] matches EvalJavaScriptIncomingMessage::FileDependency { path } ==> files_in(
            cwd,
            messages,
        ).contains(cwd.join(path@)),
        messages[i] matches EvalJavaScriptIncomingMessage::DirDependency { path, glob } ==> dirs_in(
            cwd,
            messages,
        ).contains(GlobRequestView { path: cwd.join(path@), glob: glob@, dot_files: false }),
    decreases messages.len(),
{
    let first_files = files_of(cwd, messages[0]);
    let first_dirs = dirs_of(cwd, messages[0]);
    let rest = messages.drop_first();
    let files = files_in(cwd, messages);
    let dirs = dirs_in(cwd, messages);
    if i > 0 {
        lemma_reports_are_collected(cwd, rest, i - 1);
        assert(rest[i - 1] == messages[i]);
    }
    match messages[i] {
        EvalJavaScriptIncomingMessage::FileDependency { path } => {
            let file = cwd.join(path@);
            if i == 0 {
                assert(files[0] == file);
            } else {
                let at = files_in(cwd, rest).index_of(file);
                assert(files[first_files.len() + at] == file);
            }
        },
        EvalJavaScriptIncomingMessage::DirDependency { path, glob } => {
            let request = GlobRequestView {
                path: cwd.join(path@),
                glob: glob@,
                dot_files: false,
            };
            if i == 0 {
                assert(dirs[0] == request);
            } else {
                let at = dirs_in(cwd, rest).index_of(request);
                assert(dirs[first_dirs.len() + at] == request);
            }
        },
        _ => {},
    }
}

/// A file or a directory that is reported is begun to be read at once, as it is
/// named relative to the working directory, and nothing else is done.
pub proof fn law_reported_dependency_is_begun<E: Clone>(
    state: ReceivingView,
    message: EvalJavaScriptIncomingMessage<E>,
    effects: Seq<PullEffect<E>>,
)
    requires
        state.asks_for(message, effects),
    ensures
        message matches EvalJavaScriptIncomingMessage::FileDependency { path } ==> effects.len()
            == 1 && (effects[0] matches PullEffect::ReadFile(file) && file@ == (PathView {
            path: state.cwd.path,
            joins: state.cwd.joins.push(path@),
        })),
        message matches EvalJavaScriptIncomingMessage::DirDependency { path, glob }
            ==> effects.len() == 1 && (effects[0] matches PullEffect::ReadGlob(request)
            && request.path@ == (PathView {
            path: state.cwd.path,
            joins: state.cwd.joins.push(path@),
        }) && request.glob@ == glob@ && !request.dot_files),
{
}

/// What a worker has to report is reported once and whole: a build dependency by
/// its path and an emitted error as it is, as serious as the worker said, each under
/// the asset of the evaluation.
pub proof fn law_reported_issues_are_passed_on<E: Clone>(
    state: ReceivingView,
    message: EvalJavaScriptIncomingMessage<E>,
    effects: Seq<PullEffect<E>>,
)
    requires
        state.asks_for(message, effects),
    ensures
        message matches EvalJavaScriptIncomingMessage::BuildDependency { path } ==> effects.len()
            == 1 && (effects[0] matches PullEffect::ReportBuildDependency(issue)
            && issue.context_ident@ == state.context_ident && issue.path@ == (PathView {
            path: state.cwd.path,
            joins: state.cwd.joins.push(path@),
        })),
        message matches EvalJavaScriptIncomingMessage::EmittedError { severity, error }
            ==> effects.len() == 1 && (effects[0] matches PullEffect::ReportEmittedError(issue)
            && issue.context@ == state.context_ident && issue.cwd@ == state.cwd && issue.severity
            == severity && issue.error == error),
{
}

/// A value or an end asks for nothing. An error that ends the evaluation is
/// reported under the asset of the evaluation, and then the worker is kept from
/// further jobs.
pub proof fn law_only_an_error_asks_for_more_than_its_result<E: Clone>(
    state: ReceivingView,
    message: EvalJavaScriptIncomingMessage<E>,
    effects: Seq<PullEffect<E>>,
)
    requires
        state.asks_for(message, effects),
    ensures
        message is Value || message is End ==> effects.len() == 0,
        message matches EvalJavaScriptIncomingMessage::Error(error) ==> effects.len() == 2 && (
        effects[0] matches PullEffect::ReportEvaluation(issue) && issue.context_ident@
            == state.context_ident && issue.cwd@ == state.cwd && cloned(error, issue.error))
            && effects[1] is DisallowReuse,
{
}

/// A step shows what it holds: the state, or the result whole.
pub proof fn law_pull_step_shows_what_it_holds<E>(step: PullStep<E>, dependency: Dependency)
    ensures
        step matches PullStep::Receive(receiving) ==> step@ == PullStepView::<E>::Receive(
            receiving@,
        ),
        step matches PullStep::Await(awaiting) ==> step@ == PullStepView::Await(awaiting@),
        step matches PullStep::Return(output) ==> step@ == PullStepView::Return(output),
        dependency matches Dependency::File(path) ==> dependency@ == DependencyView::File(path@),
        dependency matches Dependency::Dir(request) ==> dependency@ == DependencyView::Dir(
            request@,
        ),
{
}

} // verus!
