use rust_gpu_assets::loader::{
    copy_step, crate_root, finish_load, is_source_path, join, BuildOutcome, CompileError,
    CompileSettings, LoadError, RustGpuLoader,
};
use rust_gpu_assets::paths::{file_name, parent_path};
use rust_gpu_assets::registry::RustGpuRegistry;
use rust_gpu_assets::store::ArtifactStore;

fn s(x: &str) -> String {
    x.to_string()
}

fn settings(out_dir: &str) -> CompileSettings {
    CompileSettings { profile: String::new(), out_dir: s(out_dir) }
}

#[test]
fn parent_of_nested_and_flat_paths() {
    assert_eq!(parent_path("fx/shader/src/lib.rs"), Some(s("fx/shader/src")));
    assert_eq!(parent_path("lib.rs"), Some(s("")));
    assert_eq!(parent_path(""), None);
}

#[test]
fn file_name_is_last_component() {
    assert_eq!(file_name("fx/shader/src/lib.rs"), s("lib.rs"));
    assert_eq!(file_name("lib.rs"), s("lib.rs"));
}

#[test]
fn join_skips_empty_part() {
    assert_eq!(join("assets", "fx.spv"), s("assets/fx.spv"));
    assert_eq!(join("assets", ""), s("assets"));
}

#[test]
fn source_extension_is_checked_on_file_name() {
    assert!(is_source_path(&s("fx/shader/src/lib.rs")));
    assert!(!is_source_path(&s("fx/shader/src/lib.foo")));
    assert!(!is_source_path(&s("fx/shader/src/.rs")));
    assert!(!is_source_path(&s("fx/rs/lib")));
}

#[test]
fn crate_root_is_two_levels_up() {
    assert_eq!(crate_root(&s("fx/shader/src/lib.rs")), Some(s("assets/fx/shader")));
    assert_eq!(crate_root(&s("src/lib.rs")), Some(s("assets")));
    assert_eq!(crate_root(&s("lib.rs")), None);
}

#[test]
fn store_returns_same_handle_for_same_path() {
    let mut store = ArtifactStore::new();
    let a = store.resolve_or_create(&s("fx.spv"));
    let b = store.resolve_or_create(&s("blur.spv"));
    let c = store.resolve_or_create(&s("fx.spv"));
    assert_eq!(a, c);
    assert_ne!(a, b);
    assert_eq!(a.id, 0);
    assert_eq!(b.id, 1);
    assert_eq!(store.get(&s("blur.spv")), Some(b));
    assert_eq!(store.get(&s("other.spv")), None);
}

#[test]
fn watched_load_records_source_and_overwrites() {
    let mut reg = RustGpuRegistry::new(true);
    let src = s("fx/shader/src/lib.rs");
    let h1 = reg.load(&src, &s("fx.spv"));
    assert_eq!(reg.watched_out_dir(&src), Some(s("fx.spv")));
    let sh = reg.watched_handle(&src);
    assert!(sh.is_some());
    let h2 = reg.load(&src, &s("fx2.spv"));
    assert_ne!(h1, h2);
    assert_eq!(reg.watched_out_dir(&src), Some(s("fx2.spv")));
    assert_eq!(reg.watched_handle(&src), sh);
    assert_eq!(reg.output_handle(&s("fx.spv")), Some(h1));
}

#[test]
fn unwatched_load_records_nothing_and_keeps_identity() {
    let mut reg = RustGpuRegistry::new(false);
    let src = s("fx/shader/src/lib.rs");
    let h1 = reg.load(&src, &s("fx.spv"));
    let h2 = reg.load(&s("other/shader/src/lib.rs"), &s("fx.spv"));
    assert_eq!(h1, h2);
    assert_eq!(reg.watched_out_dir(&src), None);
    assert_eq!(reg.watched_handle(&src), None);
}

#[test]
fn foreign_extension_is_refused_before_compiling() {
    let loader = RustGpuLoader { compile_on_load: true };
    let r = loader.plan_load(&s("fx/shader/src/lib.foo"), &settings("fx.spv"));
    assert!(matches!(r, Err(LoadError::UnsupportedExtension)));
}

#[test]
fn shallow_path_names_no_crate() {
    let loader = RustGpuLoader { compile_on_load: true };
    let r = loader.plan_load(&s("lib.rs"), &settings("fx.spv"));
    assert!(matches!(r, Err(LoadError::PathResolution)));
}

#[test]
fn extension_is_rs() {
    let loader = RustGpuLoader { compile_on_load: false };
    assert_eq!(loader.extensions(), "rs");
}

#[test]
fn scenario_fx_shader_compiles_to_fx_spv() {
    let mut reg = RustGpuRegistry::new(true);
    let before = reg.load(&s("fx/shader/src/lib.rs"), &s("fx.spv"));
    let loader = RustGpuLoader { compile_on_load: true };
    let plan = loader.plan_load(&s("fx/shader/src/lib.rs"), &settings("fx.spv")).ok().unwrap();
    assert_eq!(plan.crate_root, s("assets/fx/shader"));
    let req = plan.request.as_ref().unwrap();
    assert_eq!(req.crate_root, s("assets/fx/shader"));
    assert_eq!(req.target, s("spirv-unknown-vulkan1.1"));
    assert_eq!(req.out_dir_arg, s("OUT_DIR=fx.spv"));
    assert!(!req.print_metadata);
    assert!(req.silent_exit_on_panic);
    assert_eq!(req.destination, s("assets/fx.spv"));
    let step = copy_step(req, &BuildOutcome::Built(vec![s("target/fx.spv")])).ok().unwrap();
    assert_eq!(step.from, s("target/fx.spv"));
    assert_eq!(step.to, s("assets/fx.spv"));
    let shader = finish_load(plan, Ok(())).ok().unwrap();
    assert_eq!(shader.crate_root, s("assets/fx/shader"));
    let after = reg.load(&s("fx/shader/src/lib.rs"), &s("fx.spv"));
    assert_eq!(before, after);
}

#[test]
fn compile_off_plans_no_request() {
    let loader = RustGpuLoader { compile_on_load: false };
    let plan = loader.plan_load(&s("fx/shader/src/lib.rs"), &settings("fx.spv")).ok().unwrap();
    assert!(plan.request.is_none());
    let shader = finish_load(plan, Ok(())).ok().unwrap();
    assert_eq!(shader.crate_root, s("assets/fx/shader"));
}

#[test]
fn failed_toolchain_copies_nothing() {
    let loader = RustGpuLoader { compile_on_load: true };
    let plan = loader.plan_load(&s("fx/shader/src/lib.rs"), &settings("fx.spv")).ok().unwrap();
    let r = copy_step(plan.request.as_ref().unwrap(), &BuildOutcome::Failed);
    assert!(matches!(r, Err(CompileError::ToolchainFailed)));
    let done = finish_load(plan, Err(CompileError::ToolchainFailed));
    assert!(matches!(done, Err(LoadError::Compile(CompileError::ToolchainFailed))));
}

#[test]
fn several_modules_fail_the_compile() {
    let loader = RustGpuLoader { compile_on_load: true };
    let plan = loader.plan_load(&s("fx/shader/src/lib.rs"), &settings("fx.spv")).ok().unwrap();
    let outcome = BuildOutcome::Built(vec![s("a.spv"), s("b.spv")]);
    let r = copy_step(plan.request.as_ref().unwrap(), &outcome);
    assert!(matches!(r, Err(CompileError::MultipleModules)));
    let done = finish_load(plan, Err(CompileError::MultipleModules));
    assert!(matches!(done, Err(LoadError::Compile(CompileError::MultipleModules))));
}

#[test]
fn no_module_fails_the_compile() {
    let loader = RustGpuLoader { compile_on_load: true };
    let plan = loader.plan_load(&s("fx/shader/src/lib.rs"), &settings("fx.spv")).ok().unwrap();
    let r = copy_step(plan.request.as_ref().unwrap(), &BuildOutcome::Built(vec![]));
    assert!(matches!(r, Err(CompileError::NoModule)));
}

#[test]
fn copy_failure_fails_the_load() {
    let loader = RustGpuLoader { compile_on_load: true };
    let plan = loader.plan_load(&s("fx/shader/src/lib.rs"), &settings("fx.spv")).ok().unwrap();
    let done = finish_load(plan, Err(CompileError::CopyFailed));
    assert!(matches!(done, Err(LoadError::Compile(CompileError::CopyFailed))));
}
