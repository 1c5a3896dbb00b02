//! Setting up the pool of Node.js processes that evaluate a module.
//!
//! The module is wrapped in an entry module that talks to this process, the entry
//! module is written to disk together with what it needs, and the pool starts its
//! processes from there.
//!
//! Every state carries the request to the end, and with it a purpose: what the
//! pool is set up for. The states can only be reached one from the other.

use indexmap::IndexMap;

use crate::inner_assets::{asset_entries, inner_assets};
use crate::path::{FileSystemPath, PathView};
use crate::text::{javascript_file_name, javascript_name};
use vstd::prelude::*;

verus! {

/// What a module is written in.
#[derive(Clone, Copy, Debug, PartialEq, Eq, Structural)]
pub enum EcmascriptModuleAssetType {
    Typescript,
}

/// A transformation of a module's source.
#[derive(Clone, Copy, Debug, PartialEq, Eq, Structural)]
pub enum EcmascriptInputTransform {
    TypeScript { use_define_for_class_fields: bool },
}

/// Where the source of a module comes from.
#[derive(Debug)]
pub enum ModuleSource {
    /// A file that is embedded in this program.
    Embedded(String),
    /// A text that stands for a file at a path.
    Virtual { path: FileSystemPath, content: String },
}

#[verifier::ext_equal]
pub enum ModuleSourceView {
    Embedded(Seq<char>),
    Virtual { path: PathView, content: Seq<char> },
}

impl View for ModuleSource {
    type V = ModuleSourceView;

    open spec fn view(&self) -> ModuleSourceView {
        match self {
            ModuleSource::Embedded(name) => ModuleSourceView::Embedded(name@),
            ModuleSource::Virtual { path, content } => ModuleSourceView::Virtual {
                path: path@,
                content: content@,
            },
        }
    }
}

/// A module to be built.
#[derive(Debug)]
pub struct EcmascriptModule {
    pub source: ModuleSource,
    /// The context that the module is built in, by its handle.
    pub context: u64,
    pub ty: EcmascriptModuleAssetType,
    pub transforms: Vec<EcmascriptInputTransform>,
    /// The assets that the module can require by name, if there are any.
    pub inner_assets: Option<IndexMap<String, u64>>,
}

#[verifier::ext_equal]
pub struct ModuleView {
    pub source: ModuleSourceView,
    pub context: u64,
    pub ty: EcmascriptModuleAssetType,
    pub transforms: Seq<EcmascriptInputTransform>,
    pub inner_assets: Option<Seq<(Seq<char>, u64)>>,
}

impl View for EcmascriptModule {
    type V = ModuleView;

    open spec fn view(&self) -> ModuleView {
        ModuleView {
            source: self.source@,
            context: self.context,
            ty: self.ty,
            transforms: self.transforms@,
            inner_assets: match self.inner_assets {
                Some(assets) => Some(asset_entries(assets)),
                None => None,
            },
        }
    }
}

/// A TypeScript module, transformed as such.
pub open spec fn typescript_view(
    source: ModuleSourceView,
    context: u64,
    inner_assets: Option<Seq<(Seq<char>, u64)>>,
) -> ModuleView {
    ModuleView {
        source,
        context,
        ty: EcmascriptModuleAssetType::Typescript,
        transforms: seq![
            EcmascriptInputTransform::TypeScript { use_define_for_class_fields: false },
        ],
        inner_assets,
    }
}

/// The embedded TypeScript file `name`.
pub open spec fn embedded_view(name: Seq<char>, context: u64) -> ModuleView {
    typescript_view(ModuleSourceView::Embedded(name), context, None)
}

/// A TypeScript module from `source`.
fn typescript_module(
    source: ModuleSource,
    context: u64,
    inner_assets: Option<IndexMap<String, u64>>,
) -> (module: EcmascriptModule)
    ensures
        module@ == typescript_view(
            source@,
            context,
            match inner_assets {
                Some(assets) => Some(asset_entries(assets)),
                None => None,
            },
        ),
{
    let mut transforms: Vec<EcmascriptInputTransform> = Vec::new();
    transforms.push(EcmascriptInputTransform::TypeScript { use_define_for_class_fields: false });
    proof {
        assert(transforms@ =~= seq![
            EcmascriptInputTransform::TypeScript { use_define_for_class_fields: false },
        ]);
    }
    EcmascriptModule {
        source,
        context,
        ty: EcmascriptModuleAssetType::Typescript,
        transforms,
        inner_assets,
    }
}

/// What a pool is asked for. Assets, contexts, environments, lists of entries and
/// completions are known by handles.
#[derive(Debug)]
pub struct PoolRequest {
    pub context_path: FileSystemPath,
    pub module_asset: u64,
    pub cwd: FileSystemPath,
    pub env: u64,
    pub context: u64,
    pub intermediate_output_path: FileSystemPath,
    /// The modules to run before the entry module. A change of one of them
    /// invalidates the pool.
    pub runtime_entries: Option<u64>,
    /// What else invalidates the pool.
    pub additional_invalidation: u64,
    pub debug: bool,
}

#[verifier::ext_equal]
pub struct PoolRequestView {
    pub context_path: PathView,
    pub module_asset: u64,
    pub cwd: PathView,
    pub env: u64,
    pub context: u64,
    pub intermediate_output_path: PathView,
    pub runtime_entries: Option<u64>,
    pub additional_invalidation: u64,
    pub debug: bool,
}

impl View for PoolRequest {
    type V = PoolRequestView;

    open spec fn view(&self) -> PoolRequestView {
        PoolRequestView {
            context_path: self.context_path@,
            module_asset: self.module_asset,
            cwd: self.cwd@,
            env: self.env,
            context: self.context,
            intermediate_output_path: self.intermediate_output_path@,
            runtime_entries: self.runtime_entries,
            additional_invalidation: self.additional_invalidation,
            debug: self.debug,
        }
    }
}

/// Where chunks are written, and the context whose environment they are for.
#[derive(Debug)]
pub struct ChunkingContext {
    pub context_path: FileSystemPath,
    pub output_root_path: FileSystemPath,
    pub chunk_root_path: FileSystemPath,
    pub asset_root_path: FileSystemPath,
    pub context: u64,
}

#[verifier::ext_equal]
pub struct ChunkingContextView {
    pub context_path: PathView,
    pub output_root_path: PathView,
    pub chunk_root_path: PathView,
    pub asset_root_path: PathView,
    pub context: u64,
}

impl View for ChunkingContext {
    type V = ChunkingContextView;

    open spec fn view(&self) -> ChunkingContextView {
        ChunkingContextView {
            context_path: self.context_path@,
            output_root_path: self.output_root_path@,
            chunk_root_path: self.chunk_root_path@,
            asset_root_path: self.asset_root_path@,
            context: self.context,
        }
    }
}

impl PoolRequestView {
    /// Where the chunks for this request are written.
    pub open spec fn chunking_context(self) -> ChunkingContextView {
        ChunkingContextView {
            context_path: self.context_path,
            output_root_path: self.intermediate_output_path,
            chunk_root_path: self.intermediate_output_path.join("chunks"@),
            asset_root_path: self.intermediate_output_path.join("assets"@),
            context: self.context,
        }
    }

    /// The path of the entry point for a module in a file called `file_name`: a
    /// JavaScript file that is named after the module.
    pub open spec fn entry_path(self, file_name: Seq<char>) -> PathView {
        self.intermediate_output_path.join(javascript_name(file_name))
    }

    /// The entry module: it hands the module, as `INNER`, to the runtime, as
    /// `RUNTIME`.
    pub open spec fn entry_module(self, runtime: RuntimeAssetView) -> ModuleView {
        typescript_view(
            ModuleSourceView::Virtual {
                path: runtime.path.join("evaluate.js"@),
                content:
                    "import { run } from 'RUNTIME'; run((...args) => (require('INNER').default(...args)))"@,
            },
            self.context,
            Some(seq![("INNER"@, self.module_asset), ("RUNTIME"@, runtime.asset)]),
        )
    }
}

fn chunking_context_for(request: &PoolRequest) -> (chunking_context: ChunkingContext)
    ensures
        chunking_context@ == request@.chunking_context(),
{
    ChunkingContext {
        context_path: request.context_path.clone(),
        output_root_path: request.intermediate_output_path.clone(),
        chunk_root_path: request.intermediate_output_path.join("chunks"),
        asset_root_path: request.intermediate_output_path.join("assets"),
        context: request.context,
    }
}

/// The runtime module once it is built: its handle and its path.
#[derive(Debug)]
pub struct RuntimeAsset {
    pub asset: u64,
    pub path: FileSystemPath,
}

#[verifier::ext_equal]
pub struct RuntimeAssetView {
    pub asset: u64,
    pub path: PathView,
}

impl View for RuntimeAsset {
    type V = RuntimeAssetView;

    open spec fn view(&self) -> RuntimeAssetView {
        RuntimeAssetView { asset: self.asset, path: self.path@ }
    }
}

/// What the processes of the pool start from.
#[derive(Debug)]
pub struct Bootstrap {
    pub path: FileSystemPath,
    /// The module whose evaluated chunk the processes run.
    pub entry_module: EcmascriptModule,
    /// Where that chunk is made.
    pub chunking_context: ChunkingContext,
    /// The modules that run before the entry module, by their handles.
    pub runtime_entries: Vec<u64>,
}

#[verifier::ext_equal]
pub struct BootstrapView {
    pub path: PathView,
    pub entry_module: ModuleView,
    pub chunking_context: ChunkingContextView,
    pub runtime_entries: Seq<u64>,
}

impl View for Bootstrap {
    type V = BootstrapView;

    open spec fn view(&self) -> BootstrapView {
        BootstrapView {
            path: self.path@,
            entry_module: self.entry_module@,
            chunking_context: self.chunking_context@,
            runtime_entries: self.runtime_entries@,
        }
    }
}

/// How the processes of the pool are started. `D` is a place on disk.
#[derive(Debug, PartialEq, Eq)]
pub struct PoolOptions<D> {
    pub cwd: D,
    pub entrypoint: D,
    pub env: Vec<(String, String)>,
    pub concurrency: usize,
    pub debug: bool,
}

/// The modules that run before the entry module: the globals, then those of the
/// caller in their order.
pub open spec fn entries_with_globals(globals: u64, others: Option<Seq<u64>>) -> Seq<u64> {
    match others {
        Some(others) => seq![globals] + others,
        None => seq![globals],
    }
}

/// How many processes run at the same time: as many as the machine can, or one if
/// that is not known.
pub open spec fn concurrency_for(available_parallelism: Option<usize>) -> usize {
    match available_parallelism {
        Some(n) => n,
        None => 1,
    }
}

/// What a state knows from the start.
#[verifier::ext_equal]
pub struct SetupView<U> {
    pub request: PoolRequestView,
    pub purpose: U,
}

/// The chunking context and the runtime module are to be built, and the path of
/// the module is waited for.
#[derive(Debug)]
pub struct ModulePathPending<U> {
    request: PoolRequest,
    purpose: U,
}

impl<U> View for ModulePathPending<U> {
    type V = SetupView<U>;

    closed spec fn view(&self) -> SetupView<U> {
        SetupView { request: self.request@, purpose: self.purpose }
    }
}

/// The place on disk of the working directory is waited for.
#[derive(Debug)]
pub struct CwdPending<U> {
    request: PoolRequest,
    purpose: U,
    path: FileSystemPath,
    entry_module: EcmascriptModule,
}

#[verifier::ext_equal]
pub struct CwdView<U> {
    pub setup: SetupView<U>,
    pub path: PathView,
    pub entry_module: ModuleView,
}

impl<U> View for CwdPending<U> {
    type V = CwdView<U>;

    closed spec fn view(&self) -> CwdView<U> {
        CwdView {
            setup: SetupView { request: self.request@, purpose: self.purpose },
            path: self.path@,
            entry_module: self.entry_module@,
        }
    }
}

/// The place on disk of the entry point is waited for.
#[derive(Debug)]
pub struct EntrypointPending<D, U> {
    request: PoolRequest,
    purpose: U,
    path: FileSystemPath,
    entry_module: EcmascriptModule,
    cwd: Option<D>,
}

#[verifier::ext_equal]
pub struct EntrypointView<D, U> {
    pub setup: SetupView<U>,
    pub path: PathView,
    pub entry_module: ModuleView,
    pub cwd: Option<D>,
}

impl<D, U> View for EntrypointPending<D, U> {
    type V = EntrypointView<D, U>;

    closed spec fn view(&self) -> EntrypointView<D, U> {
        EntrypointView {
            setup: SetupView { request: self.request@, purpose: self.purpose },
            path: self.path@,
            entry_module: self.entry_module@,
            cwd: self.cwd,
        }
    }
}

/// The module of globals is to be built, and the caller's runtime entries are
/// waited for.
#[derive(Debug)]
pub struct EntriesPending<D, U> {
    request: PoolRequest,
    purpose: U,
    path: FileSystemPath,
    entry_module: EcmascriptModule,
    cwd: D,
    entrypoint: D,
}

#[verifier::ext_equal]
pub struct EntriesView<D, U> {
    pub setup: SetupView<U>,
    pub path: PathView,
    pub entry_module: ModuleView,
    pub cwd: D,
    pub entrypoint: D,
}

impl<D, U> View for EntriesPending<D, U> {
    type V = EntriesView<D, U>;

    closed spec fn view(&self) -> EntriesView<D, U> {
        EntriesView {
            setup: SetupView { request: self.request@, purpose: self.purpose },
            path: self.path@,
            entry_module: self.entry_module@,
            cwd: self.cwd,
            entrypoint: self.entrypoint,
        }
    }
}

/// A `package.json` is to be written to the output path of the request.
#[derive(Debug)]
pub struct PackageJsonPending<D, U> {
    request: PoolRequest,
    purpose: U,
    bootstrap: Bootstrap,
    cwd: D,
    entrypoint: D,
}

/// The bootstrap is to be written to the output path of the request.
#[derive(Debug)]
pub struct BootstrapPending<D, U> {
    request: PoolRequest,
    purpose: U,
    bootstrap: Bootstrap,
    cwd: D,
    entrypoint: D,
}

#[verifier::ext_equal]
pub struct EmitView<D, U> {
    pub setup: SetupView<U>,
    pub bootstrap: BootstrapView,
    pub cwd: D,
    pub entrypoint: D,
}

impl<D, U> View for PackageJsonPending<D, U> {
    type V = EmitView<D, U>;

    closed spec fn view(&self) -> EmitView<D, U> {
        EmitView {
            setup: SetupView { request: self.request@, purpose: self.purpose },
            bootstrap: self.bootstrap@,
            cwd: self.cwd,
            entrypoint: self.entrypoint,
        }
    }
}

impl<D, U> View for BootstrapPending<D, U> {
    type V = EmitView<D, U>;

    closed spec fn view(&self) -> EmitView<D, U> {
        EmitView {
            setup: SetupView { request: self.request@, purpose: self.purpose },
            bootstrap: self.bootstrap@,
            cwd: self.cwd,
            entrypoint: self.entrypoint,
        }
    }
}

/// The environment of the processes is waited for.
#[derive(Debug)]
pub struct EnvPending<D, U> {
    request: PoolRequest,
    purpose: U,
    cwd: D,
    entrypoint: D,
}

#[verifier::ext_equal]
pub struct EnvView<D, U> {
    pub setup: SetupView<U>,
    pub cwd: D,
    pub entrypoint: D,
}

impl<D, U> View for EnvPending<D, U> {
    type V = EnvView<D, U>;

    closed spec fn view(&self) -> EnvView<D, U> {
        EnvView {
            setup: SetupView { request: self.request@, purpose: self.purpose },
            cwd: self.cwd,
            entrypoint: self.entrypoint,
        }
    }
}

/// The pool is to be created with the options, and what else invalidates it is
/// waited for.
#[derive(Debug)]
pub struct InvalidationPending<D, U> {
    request: PoolRequest,
    purpose: U,
    options: PoolOptions<D>,
}

#[verifier::ext_equal]
pub struct InvalidationView<D, U> {
    pub setup: SetupView<U>,
    pub options: PoolOptions<D>,
}

impl<D, U> View for InvalidationPending<D, U> {
    type V = InvalidationView<D, U>;

    closed spec fn view(&self) -> InvalidationView<D, U> {
        InvalidationView {
            setup: SetupView { request: self.request@, purpose: self.purpose },
            options: self.options,
        }
    }
}

/// A pool that has been set up, with the request and the purpose that it was set
/// up for.
#[derive(Debug)]
pub struct EvaluatePool<P, U> {
    request: PoolRequest,
    purpose: U,
    pool: P,
}

#[verifier::ext_equal]
pub struct EvaluatePoolView<P, U> {
    pub setup: SetupView<U>,
    pub pool: P,
}

impl<P, U> View for EvaluatePool<P, U> {
    type V = EvaluatePoolView<P, U>;

    closed spec fn view(&self) -> EvaluatePoolView<P, U> {
        EvaluatePoolView {
            setup: SetupView { request: self.request@, purpose: self.purpose },
            pool: self.pool,
        }
    }
}

impl<U> SetupView<U> {
    /// What follows once the module is known to lie in a file called `file_name`.
    pub open spec fn after_module(
        self,
        file_name: Seq<char>,
        runtime: RuntimeAssetView,
    ) -> CwdView<U> {
        CwdView {
            setup: self,
            path: self.request.entry_path(file_name),
            entry_module: self.request.entry_module(runtime),
        }
    }
}

impl<U> CwdView<U> {
    /// What follows once the working directory is known to lie at `cwd` on disk,
    /// if anywhere.
    pub open spec fn after_cwd<D>(self, cwd: Option<D>) -> EntrypointView<D, U> {
        EntrypointView {
            setup: self.setup,
            path: self.path,
            entry_module: self.entry_module,
            cwd,
        }
    }
}

impl<D, U> EntrypointView<D, U> {
    /// What follows once the entry point is known to lie at `entrypoint` on disk.
    pub open spec fn after_entrypoint(self, entrypoint: Option<D>) -> EntriesView<D, U>
        recommends
            self.cwd is Some,
            entrypoint is Some,
    {
        EntriesView {
            setup: self.setup,
            path: self.path,
            entry_module: self.entry_module,
            cwd: self.cwd->0,
            entrypoint: entrypoint->0,
        }
    }
}

impl<D, U> EntriesView<D, U> {
    /// What follows once the modules are known that run before the entry module.
    pub open spec fn after_entries(self, globals: u64, others: Option<Seq<u64>>) -> EmitView<D, U> {
        EmitView {
            setup: self.setup,
            bootstrap: BootstrapView {
                path: self.path,
                entry_module: self.entry_module,
                chunking_context: self.setup.request.chunking_context(),
                runtime_entries: entries_with_globals(globals, others),
            },
            cwd: self.cwd,
            entrypoint: self.entrypoint,
        }
    }
}

impl<D, U> EmitView<D, U> {
    /// What follows once all has been written.
    pub open spec fn after_emit(self) -> EnvView<D, U> {
        EnvView { setup: self.setup, cwd: self.cwd, entrypoint: self.entrypoint }
    }
}

impl<D, U> EnvView<D, U> {
    /// What follows once the environment and the machine are known.
    pub open spec fn after_env(
        self,
        env: Vec<(String, String)>,
        available_parallelism: Option<usize>,
    ) -> InvalidationView<D, U> {
        InvalidationView {
            setup: self.setup,
            options: PoolOptions {
                cwd: self.cwd,
                entrypoint: self.entrypoint,
                env,
                concurrency: concurrency_for(available_parallelism),
                debug: self.setup.request.debug,
            },
        }
    }
}

/// Starts to set up a pool for `request`, for some purpose that is handed back
/// with the pool.
pub fn get_evaluate_pool<U>(request: PoolRequest, purpose: U) -> (pending: ModulePathPending<U>)
    ensures
        pending@ == (SetupView { request: request@, purpose }),
{
    ModulePathPending { request, purpose }
}

impl<U> ModulePathPending<U> {
    /// Where chunks are written.
    pub fn chunking_context(&self) -> (chunking_context: ChunkingContext)
        ensures
            chunking_context@ == self@.request.chunking_context(),
    {
        chunking_context_for(&self.request)
    }

    /// The runtime module, which is to be built.
    pub fn runtime_module(&self) -> (module: EcmascriptModule)
        ensures
            module@ == embedded_view("ipc/evaluate.ts"@, self@.request.context),
            module@.source == ModuleSourceView::Embedded("ipc/evaluate.ts"@),
            module@.context == self@.request.context,
            module@.inner_assets is None,
    {
        typescript_module(
            ModuleSource::Embedded("ipc/evaluate.ts".to_owned()),
            self.request.context,
            None,
        )
    }

    /// The module whose path is waited for.
    pub fn awaited(&self) -> (asset: u64)
        ensures
            asset == self@.request.module_asset,
    {
        self.request.module_asset
    }

    /// Takes the name of the file that the module lies in.
    pub fn module_file<F>(self, file_name: Result<String, F>, runtime: RuntimeAsset) -> (pending:
        Result<CwdPending<U>, F>)
        ensures
            match file_name {
                Ok(name) => {
                    &&& pending matches Ok(p)
                    &&& p@ == self@.after_module(name@, runtime@)
                    &&& p@.setup == self@
                    &&& p@.path.path == self@.request.intermediate_output_path.path
                    &&& p@.path.joins == self@.request.intermediate_output_path.joins.push(
                        javascript_name(name@),
                    )
                    &&& p@.entry_module.source matches ModuleSourceView::Virtual { path, content }
                    &&& path.path == runtime.path@.path
                    &&& path.joins == runtime.path@.joins.push("evaluate.js"@)
                    &&& content
                        == "import { run } from 'RUNTIME'; run((...args) => (require('INNER').default(...args)))"@
                    &&& p@.entry_module.context == self@.request.context
                    &&& p@.entry_module.inner_assets == Some(
                        seq![("INNER"@, self@.request.module_asset), ("RUNTIME"@, runtime.asset)],
                    )
                },
                Err(failure) => pending == Err::<CwdPending<U>, F>(failure),
            },
    {
        let file_name = match file_name {
            Ok(file_name) => file_name,
            Err(failure) => return Err(failure),
        };
        let written_name = javascript_file_name(file_name.as_str());
        let path = self.request.intermediate_output_path.join(written_name.as_str());
        let source = ModuleSource::Virtual {
            path: runtime.path.join("evaluate.js"),
            content: "import { run } from 'RUNTIME'; run((...args) => (require('INNER').default(...args)))".to_owned(),
        };
        let assets = inner_assets(self.request.module_asset, runtime.asset);
        let entry_module = typescript_module(source, self.request.context, Some(assets));
        Ok(CwdPending { request: self.request, purpose: self.purpose, path, entry_module })
    }
}

impl<U> CwdPending<U> {
    /// The path whose place on disk is waited for: the working directory.
    pub fn awaited(&self) -> (path: &FileSystemPath)
        ensures
            path@ == self@.setup.request.cwd,
    {
        &self.request.cwd
    }

    /// Takes the place of the working directory on disk, if it has one.
    pub fn cwd<D, F>(self, cwd: Result<Option<D>, F>) -> (pending: Result<EntrypointPending<D, U>, F>)
        ensures
            match cwd {
                Ok(cwd) => pending matches Ok(p) && p@ == self@.after_cwd(cwd),
                Err(failure) => pending == Err::<EntrypointPending<D, U>, F>(failure),
            },
    {
        match cwd {
            Ok(cwd) => Ok(
                EntrypointPending {
                    request: self.request,
                    purpose: self.purpose,
                    path: self.path,
                    entry_module: self.entry_module,
                    cwd,
                },
            ),
            Err(failure) => Err(failure),
        }
    }
}

impl<D, U> EntrypointPending<D, U> {
    /// The path whose place on disk is waited for: the entry point.
    pub fn awaited(&self) -> (path: &FileSystemPath)
        ensures
            path@ == self@.path,
    {
        &self.path
    }

    /// Whether the working directory lies on disk.
    pub fn has_cwd(&self) -> (has: bool)
        ensures
            has == (self@.cwd is Some),
    {
        self.cwd.is_some()
    }

    /// Takes the place of the entry point on disk. A module can only be evaluated
    /// from a disk file system, so both the working directory and the entry point
    /// must have a place there.
    pub fn entrypoint<F>(self, entrypoint: Result<Option<D>, F>) -> (pending: Result<
        EntriesPending<D, U>,
        F,
    >)
        requires
            entrypoint matches Ok(e) ==> e is Some && self@.cwd is Some,
        ensures
            match entrypoint {
                Ok(e) => pending matches Ok(p) && p@ == self@.after_entrypoint(e),
                Err(failure) => pending == Err::<EntriesPending<D, U>, F>(failure),
            },
    {
        match entrypoint {
            Ok(entrypoint) => Ok(
                EntriesPending {
                    request: self.request,
                    purpose: self.purpose,
                    path: self.path,
                    entry_module: self.entry_module,
                    cwd: self.cwd.unwrap(),
                    entrypoint: entrypoint.unwrap(),
                },
            ),
            Err(failure) => Err(failure),
        }
    }
}

/// The modules that run before the entry module: the globals, then those of the
/// caller in their order.
pub fn runtime_entries(globals: u64, others: Option<&Vec<u64>>) -> (entries: Vec<u64>)
    ensures
        entries@ == entries_with_globals(
            globals,
            match others {
                Some(o) => Some(o@),
                None => None,
            },
        ),
{
    let mut entries: Vec<u64> = Vec::new();
    entries.push(globals);
    if let Some(others) = others {
        let mut i: usize = 0;
        proof {
            assert(entries@ =~= seq![globals] + others@.take(0));
        }
        while i < others.len()
            invariant
                i <= others.len(),
                entries@ == seq![globals] + others@.take(i as int),
            decreases others.len() - i,
        {
            entries.push(others[i]);
            proof {
                assert(seq![globals] + others@.take(i + 1) =~= (seq![globals] + others@.take(
                    i as int,
                )).push(others@[i as int]));
            }
            i += 1;
        }
        proof {
            assert(others@.take(others@.len() as int) =~= others@);
        }
    }
    proof {
        assert(others is None ==> entries@ =~= seq![globals]);
    }
    entries
}

impl<D, U> EntriesPending<D, U> {
    /// The module of globals, which is to be built.
    pub fn globals_module(&self) -> (module: EcmascriptModule)
        ensures
            module@ == embedded_view("globals.ts"@, self@.setup.request.context),
            module@.source == ModuleSourceView::Embedded("globals.ts"@),
            module@.context == self@.setup.request.context,
            module@.inner_assets is None,
    {
        typescript_module(
            ModuleSource::Embedded("globals.ts".to_owned()),
            self.request.context,
            None,
        )
    }

    /// The caller's runtime entries that are waited for, if there are any.
    pub fn awaited(&self) -> (entries: Option<u64>)
        ensures
            entries == self@.setup.request.runtime_entries,
    {
        self.request.runtime_entries
    }

    /// Takes the module of globals and, if the request has some, the caller's
    /// runtime entries.
    pub fn entries<F>(self, globals: u64, others: Option<Result<Vec<u64>, F>>) -> (pending: Result<
        PackageJsonPending<D, U>,
        F,
    >)
        requires
            others is Some <==> self@.setup.request.runtime_entries is Some,
        ensures
            match others {
                Some(Ok(o)) => pending matches Ok(p) && p@ == self@.after_entries(
                    globals,
                    Some(o@),
                ),
                Some(Err(failure)) => pending == Err::<PackageJsonPending<D, U>, F>(failure),
                None => pending matches Ok(p) && p@ == self@.after_entries(globals, None),
            },
    {
        let runtime_entries = match others {
            Some(Ok(others)) => runtime_entries(globals, Some(&others)),
            Some(Err(failure)) => return Err(failure),
            None => runtime_entries(globals, None),
        };
        let bootstrap = Bootstrap {
            path: self.path,
            entry_module: self.entry_module,
            chunking_context: chunking_context_for(&self.request),
            runtime_entries,
        };
        Ok(
            PackageJsonPending {
                request: self.request,
                purpose: self.purpose,
                bootstrap,
                cwd: self.cwd,
                entrypoint: self.entrypoint,
            },
        )
    }
}

impl<D, U> PackageJsonPending<D, U> {
    /// The directory that the `package.json` is written to.
    pub fn directory(&self) -> (directory: &FileSystemPath)
        ensures
            directory@ == self@.setup.request.intermediate_output_path,
    {
        &self.request.intermediate_output_path
    }

    /// Goes on after the `package.json` was written.
    pub fn package_json<F>(self, written: Result<(), F>) -> (pending: Result<
        BootstrapPending<D, U>,
        F,
    >)
        ensures
            match written {
                Ok(()) => pending matches Ok(p) && p@ == self@,
                Err(failure) => pending == Err::<BootstrapPending<D, U>, F>(failure),
            },
    {
        match written {
            Ok(()) => Ok(
                BootstrapPending {
                    request: self.request,
                    purpose: self.purpose,
                    bootstrap: self.bootstrap,
                    cwd: self.cwd,
                    entrypoint: self.entrypoint,
                },
            ),
            Err(failure) => Err(failure),
        }
    }
}

impl<D, U> BootstrapPending<D, U> {
    /// What is written.
    pub fn bootstrap(&self) -> (bootstrap: &Bootstrap)
        ensures
            bootstrap@ == self@.bootstrap,
    {
        &self.bootstrap
    }

    /// The directory that the bootstrap is written to.
    pub fn directory(&self) -> (directory: &FileSystemPath)
        ensures
            directory@ == self@.setup.request.intermediate_output_path,
    {
        &self.request.intermediate_output_path
    }

    /// Goes on after the bootstrap was written.
    pub fn emitted<F>(self, written: Result<(), F>) -> (pending: Result<EnvPending<D, U>, F>)
        ensures
            match written {
                Ok(()) => pending matches Ok(p) && p@ == self@.after_emit(),
                Err(failure) => pending == Err::<EnvPending<D, U>, F>(failure),
            },
    {
        match written {
            Ok(()) => Ok(
                EnvPending {
                    request: self.request,
                    purpose: self.purpose,
                    cwd: self.cwd,
                    entrypoint: self.entrypoint,
                },
            ),
            Err(failure) => Err(failure),
        }
    }
}

impl<D, U> EnvPending<D, U> {
    /// The environment that is waited for.
    pub fn awaited(&self) -> (env: u64)
        ensures
            env == self@.setup.request.env,
    {
        self.request.env
    }

    /// Takes the environment variables, and how many processes the machine can run
    /// at the same time, if that is known.
    pub fn env<F>(
        self,
        env: Result<Vec<(String, String)>, F>,
        available_parallelism: Option<usize>,
    ) -> (pending: Result<InvalidationPending<D, U>, F>)
        ensures
            match env {
                Ok(env) => {
                    &&& pending matches Ok(p)
                    &&& p@ == self@.after_env(env, available_parallelism)
                    &&& p@.setup == self@.setup
                    &&& p@.options.cwd == self@.cwd
                    &&& p@.options.entrypoint == self@.entrypoint
                    &&& p@.options.env == env
                    &&& p@.options.debug == self@.setup.request.debug
                    &&& available_parallelism matches Some(n) ==> p@.options.concurrency == n
                    &&& available_parallelism is None ==> p@.options.concurrency == 1
                },
                Err(failure) => pending == Err::<InvalidationPending<D, U>, F>(failure),
            },
    {
        match env {
            Ok(env) => {
                let options = PoolOptions {
                    cwd: self.cwd,
                    entrypoint: self.entrypoint,
                    env,
                    concurrency: match available_parallelism {
                        Some(n) => n,
                        None => 1,
                    },
                    debug: self.request.debug,
                };
                Ok(InvalidationPending { request: self.request, purpose: self.purpose, options })
            },
            Err(failure) => Err(failure),
        }
    }
}

impl<D, U> InvalidationPending<D, U> {
    /// How the pool is created.
    pub fn options(&self) -> (options: &PoolOptions<D>)
        ensures
            *options == self@.options,
    {
        &self.options
    }

    /// What else invalidates the pool, and is waited for.
    pub fn awaited(&self) -> (invalidation: u64)
        ensures
            invalidation == self@.setup.request.additional_invalidation,
    {
        self.request.additional_invalidation
    }

    /// Hands out the pool that was created with the options, once what else
    /// invalidates it is known.
    pub fn invalidated<P, F>(self, pool: P, invalidation: Result<(), F>) -> (ready: Result<
        EvaluatePool<P, U>,
        F,
    >)
        ensures
            match invalidation {
                Ok(()) => ready matches Ok(r) && r@ == (EvaluatePoolView {
                    setup: self@.setup,
                    pool,
                }),
                Err(failure) => ready == Err::<EvaluatePool<P, U>, F>(failure),
            },
    {
        match invalidation {
            Ok(()) => Ok(EvaluatePool { request: self.request, purpose: self.purpose, pool }),
            Err(failure) => Err(failure),
        }
    }
}

impl<P, U> EvaluatePool<P, U> {
    /// The request, the purpose and the pool.
    pub fn into_parts(self) -> (parts: (PoolRequest, U, P))
        ensures
            parts.0@ == self@.setup.request,
            parts.1 == self@.setup.purpose,
            parts.2 == self@.pool,
    {
        (self.request, self.purpose, self.pool)
    }
}

/// A pool is started from what was written for the request: its processes run in
/// the working directory of the request, from the entry point that is named after
/// the module, with the runtime entries, the environment, the number of processes
/// and the debug flag that were asked for. To the end, the request and the purpose
/// are those of the start.
pub proof fn law_pool_fits_the_request<D, U>(
    start: SetupView<U>,
    file_name: Seq<char>,
    runtime: RuntimeAssetView,
    cwd: D,
    entrypoint: D,
    globals: u64,
    others: Option<Seq<u64>>,
    env: Vec<(String, String)>,
    available_parallelism: Option<usize>,
)
    ensures
        ({
            let found = start.after_module(file_name, runtime).after_cwd(
                Some(cwd),
            ).after_entrypoint(Some(entrypoint));
            let emit = found.after_entries(globals, others);
            let last = emit.after_emit().after_env(env, available_parallelism);
            &&& found.setup == start
            &&& emit.setup == start
            &&& last.setup == start
            &&& emit.bootstrap == BootstrapView {
                path: start.request.entry_path(file_name),
                entry_module: start.request.entry_module(runtime),
                chunking_context: start.request.chunking_context(),
                runtime_entries: entries_with_globals(globals, others),
            }
            &&& last.options == PoolOptions {
                cwd,
                entrypoint,
                env,
                concurrency: concurrency_for(available_parallelism),
                debug: start.request.debug,
            }
        }),
{
}

/// A pool has at least one process.
pub proof fn law_pool_has_a_process(available_parallelism: Option<usize>)
    requires
        available_parallelism matches Some(n) ==> n >= 1,
    ensures
        concurrency_for(available_parallelism) >= 1,
{
}

/// The globals run before every other module, and no entry of the caller is lost
/// or moved.
pub proof fn law_globals_come_first(globals: u64, others: Option<Seq<u64>>)
    ensures
        entries_with_globals(globals, others)[0] == globals,
        entries_with_globals(globals, others).drop_first() == match others {
            Some(o) => o,
            None => seq![],
        },
{
    let entries = entries_with_globals(globals, others);
    match others {
        Some(o) => {
            assert(entries.drop_first() =~= o);
        },
        None => {
            assert(entries.drop_first() =~= seq![]);
        },
    }
}

/// The text of the entry module is fixed: it hands whatever arguments it gets on to
/// the module. Its path is `evaluate.js`, joined to that of the runtime.
pub proof fn law_entry_module_hands_on_the_arguments(
    request: PoolRequestView,
    runtime: RuntimeAssetView,
)
    ensures
        request.entry_module(runtime).source == (ModuleSourceView::Virtual {
            path: PathView {
                path: runtime.path.path,
                joins: runtime.path.joins.push("evaluate.js"@),
            },
            content:
                "import { run } from 'RUNTIME'; run((...args) => (require('INNER').default(...args)))"@,
        }),
        request.entry_module(runtime).context == request.context,
        request.entry_module(runtime).inner_assets == Some(
            seq![("INNER"@, request.module_asset), ("RUNTIME"@, runtime.asset)],
        ),
{
}

/// The entry module depends on nothing but the module, the context and the runtime:
/// two requests that agree on the first two give the same entry module, whatever
/// else they ask for, and requests for different modules give different ones.
pub proof fn law_entry_module_depends_on_the_module_alone(
    one: PoolRequestView,
    other: PoolRequestView,
    runtime: RuntimeAssetView,
)
    ensures
        one.entry_module(runtime) == other.entry_module(runtime) <==> one.context == other.context
            && one.module_asset == other.module_asset,
        one.entry_module(runtime).source == other.entry_module(runtime).source,
{
    let assets = one.entry_module(runtime).inner_assets->0;
    let other_assets = other.entry_module(runtime).inner_assets->0;
    assert(assets[0] == ("INNER"@, one.module_asset));
    assert(other_assets[0] == ("INNER"@, other.module_asset));
}

/// Every module that is built for a pool is TypeScript, is transformed as such and
/// no more, without defining class fields, and is otherwise as it is given.
pub proof fn law_modules_are_plain_typescript(
    source: ModuleSourceView,
    context: u64,
    inner_assets: Option<Seq<(Seq<char>, u64)>>,
    name: Seq<char>,
)
    ensures
        typescript_view(source, context, inner_assets) == (ModuleView {
            source,
            context,
            ty: EcmascriptModuleAssetType::Typescript,
            transforms: seq![
                EcmascriptInputTransform::TypeScript { use_define_for_class_fields: false },
            ],
            inner_assets,
        }),
        embedded_view(name, context) == (ModuleView {
            source: ModuleSourceView::Embedded(name),
            context,
            ty: EcmascriptModuleAssetType::Typescript,
            transforms: seq![
                EcmascriptInputTransform::TypeScript { use_define_for_class_fields: false },
            ],
            inner_assets: None,
        }),
{
}

/// The entry module is a TypeScript module like the others.
pub proof fn law_entry_module_is_typescript(request: PoolRequestView, runtime: RuntimeAssetView)
    ensures
        request.entry_module(runtime).ty == EcmascriptModuleAssetType::Typescript,
        request.entry_module(runtime).transforms == seq![
            EcmascriptInputTransform::TypeScript { use_define_for_class_fields: false },
        ],
{
}

/// All that is written for a request lies in its output directory: the chunks in
/// `chunks`, the assets in `assets`, and the entry point under the name of the
/// module's JavaScript file.
pub proof fn law_output_lies_in_the_output_directory(request: PoolRequestView, file_name: Seq<char>)
    ensures
        ({
            let out = request.intermediate_output_path;
            let chunking_context = request.chunking_context();
            &&& chunking_context.context_path == request.context_path
            &&& chunking_context.context == request.context
            &&& chunking_context.output_root_path == out
            &&& chunking_context.chunk_root_path == (PathView {
                path: out.path,
                joins: out.joins.push("chunks"@),
            })
            &&& chunking_context.asset_root_path == (PathView {
                path: out.path,
                joins: out.joins.push("assets"@),
            })
            &&& request.entry_path(file_name) == (PathView {
                path: out.path,
                joins: out.joins.push(javascript_name(file_name)),
            })
        }),
{
}

/// As many processes run at the same time as the machine can run, and one where
/// that is not known.
pub proof fn law_processes_match_the_machine(available_parallelism: Option<usize>)
    ensures
        available_parallelism matches Some(n) ==> concurrency_for(available_parallelism) == n,
        available_parallelism is None ==> concurrency_for(available_parallelism) == 1,
{
}

/// Each step of the setup adds what it was given and keeps all that was known.
pub proof fn law_setup_forgets_nothing<D, U>(
    start: SetupView<U>,
    file_name: Seq<char>,
    runtime: RuntimeAssetView,
    cwd: D,
    entrypoint: D,
    globals: u64,
    others: Option<Seq<u64>>,
    env: Vec<(String, String)>,
    available_parallelism: Option<usize>,
)
    ensures
        ({
            let named = start.after_module(file_name, runtime);
            let placed = named.after_cwd(Some(cwd));
            let found = placed.after_entrypoint(Some(entrypoint));
            let emit = found.after_entries(globals, others);
            let emitted = emit.after_emit();
            let last = emitted.after_env(env, available_parallelism);
            &&& named.setup == start && placed.setup == start && found.setup == start
            &&& emit.setup == start && emitted.setup == start && last.setup == start
            &&& named.path.joins == start.request.intermediate_output_path.joins.push(
                javascript_name(file_name),
            )
            &&& named.path.path == start.request.intermediate_output_path.path
            &&& placed.path == named.path && found.path == named.path && emit.bootstrap.path
                == named.path
            &&& named.entry_module == start.request.entry_module(runtime)
            &&& placed.entry_module == named.entry_module && found.entry_module
                == named.entry_module && emit.bootstrap.entry_module == named.entry_module
            &&& placed.cwd == Some(cwd) && named.after_cwd::<D>(None).cwd is None
            &&& found.cwd == cwd && emit.cwd == cwd && emitted.cwd == cwd && last.options.cwd == cwd
            &&& found.entrypoint == entrypoint && emit.entrypoint == entrypoint
                && emitted.entrypoint == entrypoint && last.options.entrypoint == entrypoint
            &&& emit.bootstrap.chunking_context == start.request.chunking_context()
            &&& emit.bootstrap.runtime_entries[0] == globals
            &&& emit.bootstrap.runtime_entries.len() == 1 + match others {
                Some(o) => o.len(),
                None => 0,
            }
            &&& others matches Some(o) ==> forall|i: int|
                0 <= i < o.len() ==> emit.bootstrap.runtime_entries[i + 1] == #[trigger] o[i]
            &&& last.options.env == env
            &&& last.options.debug == start.request.debug
            &&& last.options.concurrency == match available_parallelism {
                Some(n) => n,
                None => 1,
            }
        }),
{
}

/// Requests, assets and what is built from them show every field as it is.
pub proof fn law_setup_shows_what_it_holds(
    request: PoolRequest,
    runtime: RuntimeAsset,
    module: EcmascriptModule,
    chunking_context: ChunkingContext,
    bootstrap: Bootstrap,
)
    ensures
        request@ == (PoolRequestView {
            context_path: request.context_path@,
            module_asset: request.module_asset,
            cwd: request.cwd@,
            env: request.env,
            context: request.context,
            intermediate_output_path: request.intermediate_output_path@,
            runtime_entries: request.runtime_entries,
            additional_invalidation: request.additional_invalidation,
            debug: request.debug,
        }),
        runtime@ == (RuntimeAssetView { asset: runtime.asset, path: runtime.path@ }),
        module.source matches ModuleSource::Embedded(name) ==> module@.source
            == ModuleSourceView::Embedded(name@),
        module.source matches ModuleSource::Virtual { path, content } ==> module@.source
            == (ModuleSourceView::Virtual { path: path@, content: content@ }),
        module@.context == module.context,
        module@.ty == module.ty,
        module@.transforms == module.transforms@,
        module.inner_assets is None <==> module@.inner_assets is None,
        module.inner_assets matches Some(assets) ==> module@.inner_assets == Some(
            asset_entries(assets),
        ),
        chunking_context@ == (ChunkingContextView {
            context_path: chunking_context.context_path@,
            output_root_path: chunking_context.output_root_path@,
            chunk_root_path: chunking_context.chunk_root_path@,
            asset_root_path: chunking_context.asset_root_path@,
            context: chunking_context.context,
        }),
        bootstrap@ == (BootstrapView {
            path: bootstrap.path@,
            entry_module: bootstrap.entry_module@,
            chunking_context: bootstrap.chunking_context@,
            runtime_entries: bootstrap.runtime_entries@,
        }),
{
}

} // verus!
