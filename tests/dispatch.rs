use bindgen_cuda::dispatch::{command_line, first_failed, include_options, kernel_units, staged_include_paths};
use bindgen_cuda::paths::{compare_text, include_directories};
use bindgen_cuda::{Builder, CapabilityError, Error, KernelUnit, ProcessOutcome};

fn texts(v: &[&str]) -> Vec<String> {
    v.iter().map(|s| s.to_string()).collect()
}

fn ok() -> ProcessOutcome {
    ProcessOutcome::Exited { code: Some(0), stdout: String::new(), stderr: String::new() }
}

fn three_unit_builder() -> Builder {
    let mut b = Builder::new("out".to_string(), 2)
        .kernel_paths(texts(&["src/a.cu", "src/b.cu", "src/c.cu"]))
        .compute_cap(Some(86));
    b.cuda_root("/usr/local/cuda".to_string());
    b
}

#[test]
fn kernel_unit_takes_the_stem() {
    let u = KernelUnit::new("src/flash.attention.cu".to_string()).unwrap();
    assert_eq!(u.stem, "flash.attention");
    assert_eq!(u.artifact_path("out", "ptx"), "out/flash.attention.ptx");
    assert!(matches!(KernelUnit::new(String::new()), Err(Error::InvalidKernelPath { .. })));
}

#[test]
fn kernel_units_fail_on_a_path_without_a_file() {
    assert!(matches!(kernel_units(&texts(&["a.cu", "/"])), Err(Error::InvalidKernelPath { path }) if path == "/"));
    assert_eq!(kernel_units(&texts(&["a.cu", "b.cu"])).unwrap().len(), 2);
}

#[test]
fn include_directories_are_sorted_and_unique() {
    let files = texts(&["src/b/y.cuh", "src/a/x.cuh", "src/b/z.cuh"]);
    assert_eq!(include_directories(&files), texts(&["src/a", "src/b"]));
    assert_eq!(include_options(&include_directories(&files)), texts(&["-Isrc/a", "-Isrc/b"]));
    assert_eq!(include_directories(&texts(&["x.cuh"])), texts(&[""]));
}

#[test]
fn texts_compare_lexicographically() {
    assert!(compare_text("a", "b") < 0);
    assert!(compare_text("ab", "a") > 0);
    assert_eq!(compare_text("ab", "ab"), 0);
}

#[test]
fn staged_includes_go_to_the_output_directory() {
    assert_eq!(staged_include_paths("out", &texts(&["src/k.cuh"])).unwrap(), texts(&["out/k.cuh"]));
    assert!(matches!(staged_include_paths("out", &texts(&[".."])), Err(Error::InvalidIncludePath { .. })));
}

#[test]
fn command_line_joins_with_spaces() {
    assert_eq!(command_line("nvcc", &texts(&["-c", "a.cu"])), "nvcc -c a.cu");
    assert_eq!(command_line("nvcc", &vec![]), "nvcc");
}

#[test]
fn first_failed_finds_the_first_failure() {
    let fail = ProcessOutcome::Exited { code: Some(2), stdout: String::new(), stderr: String::new() };
    let killed = ProcessOutcome::Exited { code: None, stdout: String::new(), stderr: String::new() };
    assert_eq!(first_failed(&vec![ok(), ok()]), None);
    assert_eq!(first_failed(&vec![ok(), fail, ProcessOutcome::NotStarted]), Some(1));
    assert_eq!(first_failed(&vec![killed]), Some(0));
}

#[test]
fn ptx_plan_needs_root_and_cap() {
    let b = Builder::new("out".to_string(), 1).kernel_paths(texts(&["src/a.cu"]));
    assert!(matches!(b.plan_ptx(), Err(Error::MissingCudaRoot)));
    let mut b = b;
    b.cuda_root("/usr/local/cuda".to_string());
    assert!(matches!(b.plan_ptx(), Err(Error::MissingComputeCap)));
}

#[test]
fn ptx_plan_and_command() {
    let b = three_unit_builder()
        .include_paths(texts(&["src/inc/k.cuh"]))
        .arg("-O3")
        .host_compiler(Some("/usr/bin/gcc-12".to_string()));
    let plan = b.plan_ptx().unwrap();
    assert_eq!(plan.cuda_include_dir, "/usr/local/cuda/include");
    assert_eq!(plan.outputs, texts(&["out/a.ptx", "out/b.ptx", "out/c.ptx"]));
    assert_eq!(plan.include_destinations, texts(&["out/k.cuh"]));
    assert_eq!(
        plan.command(1),
        texts(&[
            "--gpu-architecture=sm_86",
            "--ptx",
            "--default-stream",
            "per-thread",
            "--output-directory",
            "out",
            "-O3",
            "-Isrc/inc",
            "-allow-unsupported-compiler",
            "-ccbin",
            "/usr/bin/gcc-12",
            "src/b.cu",
        ])
    );
}

#[test]
fn three_missing_outputs_compile_and_change() {
    let plan = three_unit_builder().plan_ptx().unwrap();
    let bindings = plan.finish(&vec![0, 1, 2], &vec![ok(), ok(), ok()], 3).unwrap();
    assert!(bindings.write);
    assert_eq!(bindings.units.len(), 3);
}

#[test]
fn fresh_outputs_leave_bindings_alone() {
    let plan = three_unit_builder().plan_ptx().unwrap();
    let bindings = plan.finish(&vec![], &vec![], 3).unwrap();
    assert!(!bindings.write);
    let mut dest = String::from("kept\n");
    bindings.write(&mut dest);
    assert_eq!(dest, "kept\n");
}

#[test]
fn failed_compile_reports_source_and_stderr() {
    let plan = three_unit_builder().plan_ptx().unwrap();
    let failed = ProcessOutcome::Exited {
        code: Some(1),
        stdout: String::new(),
        stderr: "syntax error".to_string(),
    };
    let err = plan.finish(&vec![0, 1], &vec![ok(), failed], 3).err().unwrap();
    assert!(matches!(&err, Error::Compile { source, .. } if source == "src/b.cu"));
    let message = err.message();
    assert!(message.contains("syntax error"));
    assert!(message.contains("src/b.cu"));
    assert!(message.contains("nvcc --gpu-architecture=sm_86 --ptx"));
}

#[test]
fn compiler_that_cannot_start_is_reported() {
    let plan = three_unit_builder().plan_ptx().unwrap();
    let err = plan.finish(&vec![2], &vec![ProcessOutcome::NotStarted], 3).err().unwrap();
    assert!(matches!(&err, Error::Launch { command } if command.ends_with("src/c.cu")));
    assert!(err.message().starts_with("nvcc failed to start"));
}

#[test]
fn removed_unit_rewrites_bindings() {
    let b = Builder::new("out".to_string(), 1)
        .kernel_paths(texts(&["src/a.cu", "src/b.cu"]))
        .compute_cap(Some(80));
    let mut b = b;
    b.cuda_root("/opt/cuda".to_string());
    let bindings = b.plan_ptx().unwrap().finish(&vec![], &vec![], 3).unwrap();
    assert!(bindings.write);
}

#[test]
fn library_plan_commands() {
    let plan = three_unit_builder().plan_lib("out/libk.a".to_string()).unwrap();
    assert_eq!(plan.objects, texts(&["out/a.o", "out/b.o", "out/c.o"]));
    assert_eq!(
        plan.object_command(0),
        texts(&["--gpu-architecture=sm_86", "-c", "-o", "out/a.o", "--default-stream", "per-thread", "src/a.cu"])
    );
    assert_eq!(
        plan.archive_command(),
        texts(&["--lib", "-o", "out/libk.a", "out/a.o", "out/b.o", "out/c.o"])
    );
    assert!(matches!(
        Builder::new("out".to_string(), 1).plan_lib("x.a".to_string()),
        Err(Error::MissingComputeCap)
    ));
}

#[test]
fn library_failures_are_reported() {
    let plan = three_unit_builder().plan_lib("out/libk.a".to_string()).unwrap();
    assert!(plan.check_objects(&vec![ok(), ok(), ok()]).is_ok());
    let bad = ProcessOutcome::Exited { code: Some(1), stdout: "o".to_string(), stderr: "e".to_string() };
    let err = plan.check_objects(&vec![ok(), ok(), bad.clone()]).err().unwrap();
    assert!(matches!(&err, Error::Compile { source, .. } if source == "src/c.cu"));
    assert!(plan.check_archive(&ok()).is_ok());
    let err = plan.check_archive(&bad).err().unwrap();
    assert!(matches!(&err, Error::Archive { .. }));
    assert_eq!(
        err.message(),
        "nvcc error while linking: nvcc --lib -o out/libk.a out/a.o out/b.o out/c.o\n\n# stdout\no\n\n# stderr\ne"
    );
}

#[test]
fn capability_errors_have_messages() {
    let e = Error::Capability(CapabilityError::Unsupported { cap: 89 });
    assert_eq!(e.message(), "nvcc cannot target gpu arch 89");
    assert_eq!(Error::MissingComputeCap.message(), "could not find compute_cap");
}

#[test]
fn builder_setters_keep_other_fields() {
    let b = Builder::new("out".to_string(), 4).arg("-O3").arg("-lineinfo").out_dir("other".to_string());
    assert_eq!(b.extra_args, texts(&["-O3", "-lineinfo"]));
    assert_eq!(b.out_dir, "other");
    assert_eq!(b.num_threads(8).num_threads, 8);
}
