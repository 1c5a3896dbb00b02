use node_evaluate::inner_assets::inner_assets;
use node_evaluate::path::FileSystemPath;
use node_evaluate::pool::{
    get_evaluate_pool, runtime_entries, BootstrapPending, CwdPending, EcmascriptInputTransform,
    EcmascriptModule, EcmascriptModuleAssetType, EntriesPending, EnvPending, InvalidationPending,
    ModulePathPending, ModuleSource, PackageJsonPending, PoolRequest, RuntimeAsset,
};

type Disk = &'static str;
type Purpose = &'static str;

fn path(text: &str) -> FileSystemPath {
    FileSystemPath::new(text.to_string())
}

fn request(entries: Option<u64>) -> PoolRequest {
    PoolRequest {
        context_path: path("/context"),
        module_asset: 11,
        cwd: path("/app"),
        env: 101,
        context: 102,
        intermediate_output_path: path("/out"),
        runtime_entries: entries,
        additional_invalidation: 104,
        debug: true,
    }
}

fn start_with(entries: Option<u64>) -> ModulePathPending<Purpose> {
    get_evaluate_pool(request(entries), "purpose")
}

fn start() -> ModulePathPending<Purpose> {
    start_with(Some(103))
}

fn runtime() -> RuntimeAsset {
    RuntimeAsset { asset: 22, path: path("/runtime/evaluate.ts") }
}

fn named(pending: ModulePathPending<Purpose>) -> CwdPending<Purpose> {
    pending.module_file::<String>(Ok("loader.ts".to_string()), runtime()).unwrap()
}

fn located(pending: CwdPending<Purpose>) -> EntriesPending<Disk, Purpose> {
    let pending = pending.cwd::<Disk, String>(Ok(Some("/disk/app"))).unwrap();
    assert!(pending.has_cwd());
    pending.entrypoint::<String>(Ok(Some("/disk/out/loader.js"))).unwrap()
}

fn after_module() -> CwdPending<Purpose> {
    named(start())
}

fn after_paths() -> EntriesPending<Disk, Purpose> {
    located(after_module())
}

fn after_entries() -> PackageJsonPending<Disk, Purpose> {
    after_paths().entries::<String>(33, Some(Ok(vec![44, 55]))).unwrap()
}

fn after_package_json() -> BootstrapPending<Disk, Purpose> {
    after_entries().package_json::<String>(Ok(())).unwrap()
}

fn after_emit() -> EnvPending<Disk, Purpose> {
    after_package_json().emitted::<String>(Ok(())).unwrap()
}

fn after_env(available: Option<usize>) -> InvalidationPending<Disk, Purpose> {
    let env = vec![("A".to_string(), "1".to_string()), ("B".to_string(), "2".to_string())];
    after_emit().env::<String>(Ok(env), available).unwrap()
}

fn is_typescript(module: &EcmascriptModule) -> bool {
    module.ty == EcmascriptModuleAssetType::Typescript
        && module.transforms
            == vec![EcmascriptInputTransform::TypeScript { use_define_for_class_fields: false }]
}

fn is_embedded(module: &EcmascriptModule, name: &str) -> bool {
    is_typescript(module)
        && module.context == 102
        && module.inner_assets.is_none()
        && matches!(&module.source, ModuleSource::Embedded(file) if file == name)
}

#[test]
fn setup_starts_with_the_chunking_context_and_the_runtime() {
    let pending = start();
    let chunking_context = pending.chunking_context();
    assert_eq!(chunking_context.context_path, path("/context"));
    assert_eq!(chunking_context.output_root_path, path("/out"));
    assert_eq!(chunking_context.chunk_root_path, path("/out").join("chunks"));
    assert_eq!(chunking_context.asset_root_path, path("/out").join("assets"));
    assert_eq!(chunking_context.context, 102);
    assert!(is_embedded(&pending.runtime_module(), "ipc/evaluate.ts"));
}

#[test]
fn inner_assets_keep_their_order() {
    let assets = inner_assets(11, 22);
    assert_eq!(assets.len(), 2);
    assert_eq!(assets.get_index(0), Some((&"INNER".to_string(), &11)));
    assert_eq!(assets.get_index(1), Some((&"RUNTIME".to_string(), &22)));
    assert_eq!(assets.get("INNER"), Some(&11));
    assert_eq!(assets.get("OTHER"), None);
}

#[test]
fn entry_module_wraps_the_module() {
    let pending = after_package_json();
    let bootstrap = pending.bootstrap();
    assert_eq!(bootstrap.path, path("/out").join("loader.js"));
    assert!(is_typescript(&bootstrap.entry_module));
    assert_eq!(bootstrap.entry_module.context, 102);
    match &bootstrap.entry_module.source {
        ModuleSource::Virtual { path: at, content } => {
            assert_eq!(*at, path("/runtime/evaluate.ts").join("evaluate.js"));
            assert_eq!(
                content,
                "import { run } from 'RUNTIME'; run((...args) => \
                 (require('INNER').default(...args)))"
            );
        }
        other => panic!("unexpected {:?}", other),
    }
    let assets = bootstrap.entry_module.inner_assets.as_ref().unwrap();
    assert_eq!(assets.get("INNER"), Some(&11));
    assert_eq!(assets.get("RUNTIME"), Some(&22));
}

#[test]
fn globals_run_before_the_entries_of_the_caller() {
    assert_eq!(runtime_entries(1, None), vec![1]);
    assert_eq!(runtime_entries(1, Some(&vec![3, 2])), vec![1, 3, 2]);
    assert!(is_embedded(&after_paths().globals_module(), "globals.ts"));
    let pending = after_package_json();
    assert_eq!(pending.bootstrap().runtime_entries, vec![33, 44, 55]);
    assert_eq!(pending.bootstrap().chunking_context.output_root_path, path("/out"));
    let pending = located(named(start_with(None)));
    assert_eq!(pending.awaited(), None);
    let pending = pending.entries::<String>(33, None).unwrap();
    let pending = pending.package_json::<String>(Ok(())).unwrap();
    assert_eq!(pending.bootstrap().runtime_entries, vec![33]);
}

#[test]
fn setup_waits_for_what_the_request_names() {
    assert_eq!(start().awaited(), 11);
    assert_eq!(*after_module().awaited(), path("/app"));
    let pending = after_module().cwd::<Disk, String>(Ok(Some("/disk/app"))).unwrap();
    assert_eq!(*pending.awaited(), path("/out").join("loader.js"));
    assert_eq!(after_paths().awaited(), Some(103));
    assert_eq!(*after_entries().directory(), path("/out"));
    assert_eq!(*after_package_json().directory(), path("/out"));
    assert_eq!(after_emit().awaited(), 101);
    assert_eq!(after_env(None).awaited(), 104);
}

#[test]
fn pool_is_started_as_requested() {
    let pending = after_env(Some(8));
    let options = pending.options();
    assert_eq!(options.cwd, "/disk/app");
    assert_eq!(options.entrypoint, "/disk/out/loader.js");
    assert_eq!(options.concurrency, 8);
    assert!(options.debug);
    assert_eq!(
        options.env,
        vec![("A".to_string(), "1".to_string()), ("B".to_string(), "2".to_string())]
    );
}

#[test]
fn one_process_runs_where_parallelism_is_unknown() {
    assert_eq!(after_env(None).options().concurrency, 1);
    assert_eq!(after_env(Some(1)).options().concurrency, 1);
}

#[test]
fn pool_is_handed_out_after_the_invalidation() {
    let ready = after_env(None).invalidated::<&str, String>("pool", Ok(())).unwrap();
    let (request, purpose, pool) = ready.into_parts();
    assert_eq!(pool, "pool");
    assert_eq!(purpose, "purpose");
    assert_eq!(request.cwd, path("/app"));
    assert_eq!(request.module_asset, 11);
    assert_eq!(request.runtime_entries, Some(103));
    assert_eq!(after_env(None).invalidated("pool", Err("stale")).err(), Some("stale"));
}

#[test]
fn every_failure_ends_the_setup() {
    assert_eq!(start().module_file(Err("1"), runtime()).err(), Some("1"));
    assert_eq!(after_module().cwd::<Disk, &str>(Err("2")).err(), Some("2"));
    let nowhere = after_module().cwd::<Disk, &str>(Ok(None)).unwrap();
    assert!(!nowhere.has_cwd());
    assert_eq!(nowhere.entrypoint(Err("3")).err(), Some("3"));
    assert_eq!(after_paths().entries(33, Some(Err("4"))).err(), Some("4"));
    assert_eq!(after_entries().package_json(Err("5")).err(), Some("5"));
    assert_eq!(after_package_json().emitted(Err("6")).err(), Some("6"));
    assert_eq!(after_emit().env(Err("7"), Some(2)).err(), Some("7"));
}
