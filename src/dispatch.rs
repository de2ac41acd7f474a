//! The build dispatcher's decisions: the configuration of a build, the plan
//! derived from it, the argument list of each compiler and archiver process,
//! and the verdict on the processes' outcomes.
//!
//! Processes are started by the caller, as many at once as the configuration
//! allows; their outcomes come back here in unit order. The first failure in
//! that order is the one reported, whatever order the processes finished in.

use vstd::prelude::*;
use crate::bindings::{changed, changed_signal, Bindings, KernelUnit};
use crate::error::Error;
use crate::paths::{
    file_name, file_name_of, file_stem, include_directories, is_include_directory_list, join_path,
    joined, stem_of, views_of,
};
use crate::text::{decimal_text, push_decimal};

verus! {

/// How one external process ended.
#[derive(Debug, Clone)]
pub enum ProcessOutcome {
    /// The program could not be started.
    NotStarted,
    /// The process ran; `code` is its exit code, where it exited by itself.
    Exited { code: Option<i32>, stdout: String, stderr: String },
}

pub open spec fn succeeded(o: ProcessOutcome) -> bool {
    match o {
        ProcessOutcome::Exited { code: Some(c), .. } => c == 0,
        _ => false,
    }
}

pub open spec fn all_succeeded(o: Seq<ProcessOutcome>) -> bool {
    forall|j: int| 0 <= j < o.len() ==> #[trigger] succeeded(o[j])
}

/// `k` is the position of the first outcome that is not a success.
pub open spec fn is_first_failure(o: Seq<ProcessOutcome>, k: int) -> bool {
    &&& 0 <= k < o.len()
    &&& !succeeded(o[k])
    &&& forall|j: int| 0 <= j < k ==> #[trigger] succeeded(o[j])
}

/// `e` reports the failed outcome `o` of the compiler run `command` on `source`.
pub open spec fn is_compile_report(
    e: Error,
    o: ProcessOutcome,
    command: Seq<char>,
    source: Seq<char>,
) -> bool {
    match o {
        ProcessOutcome::NotStarted => e matches Error::Launch { command: c } && c@ == command,
        ProcessOutcome::Exited { stdout, stderr, .. } => match e {
            Error::Compile { command: c, source: s, stdout: out, stderr: err } => {
                &&& c@ == command
                &&& s@ == source
                &&& out@ == stdout@
                &&& err@ == stderr@
            },
            _ => false,
        },
    }
}

/// `e` reports the failed outcome `o` of the archiver run `command`.
pub open spec fn is_archive_report(e: Error, o: ProcessOutcome, command: Seq<char>) -> bool {
    match o {
        ProcessOutcome::NotStarted => e matches Error::Launch { command: c } && c@ == command,
        ProcessOutcome::Exited { stdout, stderr, .. } => match e {
            Error::Archive { command: c, stdout: out, stderr: err } => {
                &&& c@ == command
                &&& out@ == stdout@
                &&& err@ == stderr@
            },
            _ => false,
        },
    }
}

/// A program and its arguments as one line, separated by spaces.
pub open spec fn command_line_text(program: Seq<char>, args: Seq<Seq<char>>) -> Seq<char>
    decreases args.len(),
{
    if args.len() == 0 {
        program
    } else {
        command_line_text(program, args.drop_last()) + " "@ + args.last()
    }
}

pub open spec fn arch_flag(cap: usize) -> Seq<char> {
    "--gpu-architecture=sm_"@ + decimal_text(cap as nat)
}

pub open spec fn host_compiler_args(host: Option<Seq<char>>) -> Seq<Seq<char>> {
    match host {
        Some(p) => seq!["-allow-unsupported-compiler"@, "-ccbin"@, p],
        None => Seq::empty(),
    }
}

pub open spec fn host_view(host: Option<String>) -> Option<Seq<char>> {
    match host {
        Some(p) => Some(p@),
        None => None,
    }
}

pub open spec fn include_flag(dir: Seq<char>) -> Seq<char> {
    "-I"@ + dir
}

/// The compiler's arguments that turn one source into portable assembly.
pub open spec fn ptx_args(
    cap: usize,
    out_dir: Seq<char>,
    extra: Seq<Seq<char>>,
    include_options: Seq<Seq<char>>,
    host: Option<Seq<char>>,
    source: Seq<char>,
) -> Seq<Seq<char>> {
    seq![arch_flag(cap), "--ptx"@, "--default-stream"@, "per-thread"@, "--output-directory"@, out_dir]
        + extra + include_options + host_compiler_args(host) + seq![source]
}

/// The compiler's arguments that turn one source into a relocatable object.
pub open spec fn object_args(
    cap: usize,
    object: Seq<char>,
    extra: Seq<Seq<char>>,
    host: Option<Seq<char>>,
    source: Seq<char>,
) -> Seq<Seq<char>> {
    seq![arch_flag(cap), "-c"@, "-o"@, object, "--default-stream"@, "per-thread"@] + extra
        + host_compiler_args(host) + seq![source]
}

/// The archiver's arguments that combine the objects into one library.
pub open spec fn archive_args(out_file: Seq<char>, objects: Seq<Seq<char>>) -> Seq<Seq<char>> {
    seq!["--lib"@, "-o"@, out_file] + objects
}

/// The file name of a unit's artifact: its stem with the artifact's extension.
pub open spec fn artifact_name(stem: Seq<char>, ext: Seq<char>) -> Seq<char> {
    stem + "."@ + ext
}

pub open spec fn all_have_stems(paths: Seq<Seq<char>>) -> bool {
    forall|i: int| 0 <= i < paths.len() ==> #[trigger] stem_of(paths[i]) is Some
}

pub open spec fn all_have_names(paths: Seq<Seq<char>>) -> bool {
    forall|i: int| 0 <= i < paths.len() ==> #[trigger] file_name_of(paths[i]) is Some
}

/// `units` are the units of `paths`, in order.
pub open spec fn units_of(units: Seq<KernelUnit>, paths: Seq<Seq<char>>) -> bool {
    &&& units.len() == paths.len()
    &&& forall|i: int| 0 <= i < units.len() ==> {
        &&& (#[trigger] units[i]).source@ == paths[i]
        &&& stem_of(paths[i]) == Some(units[i].stem@)
    }
}

/// `r` holds the artifact path, in `dir`, of each unit with extension `ext`.
pub open spec fn artifact_paths_of(
    r: Seq<Seq<char>>,
    dir: Seq<char>,
    units: Seq<KernelUnit>,
    ext: Seq<char>,
) -> bool {
    &&& r.len() == units.len()
    &&& forall|i: int| 0 <= i < r.len() ==> #[trigger] r[i] == joined(dir, artifact_name(units[i].stem@, ext))
}

/// `r` holds, for each include file, where it is staged in `dir`.
pub open spec fn staged_paths_of(r: Seq<Seq<char>>, dir: Seq<char>, files: Seq<Seq<char>>) -> bool {
    &&& r.len() == files.len()
    &&& forall|i: int| 0 <= i < r.len() ==> (file_name_of(files[i]) matches Some(n) && #[trigger] r[i] == joined(dir, n))
}

fn push_text(v: &mut Vec<String>, s: &str)
    ensures
        views_of(final(v)@) == views_of(old(v)@).push(s@),
{
    v.push(s.to_string());
    assert(views_of(final(v)@) =~= views_of(old(v)@).push(s@));
}

fn push_all(v: &mut Vec<String>, items: &Vec<String>)
    ensures
        views_of(final(v)@) == views_of(old(v)@) + views_of(items@),
{
    let mut i: usize = 0;
    while i < items.len()
        invariant
            i <= items@.len(),
            views_of(v@) == views_of(old(v)@) + views_of(items@.subrange(0, i as int)),
        decreases items@.len() - i,
    {
        push_text(v, items[i].as_str());
        assert(views_of(items@.subrange(0, i + 1)) =~= views_of(items@.subrange(0, i as int)).push(items@[i as int]@));
        i = i + 1;
    }
    assert(items@.subrange(0, items@.len() as int) == items@);
}

fn push_host_compiler_args(v: &mut Vec<String>, host: &Option<String>)
    ensures
        views_of(final(v)@) == views_of(old(v)@) + host_compiler_args(host_view(*host)),
{
    match host {
        Some(p) => {
            push_text(v, "-allow-unsupported-compiler");
            push_text(v, "-ccbin");
            push_text(v, p.as_str());
        },
        None => {},
    }
    assert(views_of(final(v)@) =~= views_of(old(v)@) + host_compiler_args(host_view(*host)));
}

fn arch_flag_text(cap: usize) -> (r: String)
    ensures
        r@ == arch_flag(cap),
{
    let mut s = String::from_str("--gpu-architecture=sm_");
    push_decimal(&mut s, cap);
    s
}

/// Writes a program and its arguments as one line, separated by spaces.
pub fn command_line(program: &str, args: &Vec<String>) -> (r: String)
    ensures
        r@ == command_line_text(program@, views_of(args@)),
{
    let mut r = String::from_str(program);
    let ghost a = views_of(args@);
    let mut i: usize = 0;
    while i < args.len()
        invariant
            i <= args@.len(),
            a == views_of(args@),
            r@ == command_line_text(program@, a.subrange(0, i as int)),
        decreases args@.len() - i,
    {
        r.append(" ");
        r.append(args[i].as_str());
        proof {
            let p = a.subrange(0, i + 1);
            assert(p.drop_last() == a.subrange(0, i as int));
            assert(p.last() == args@[i as int]@);
        }
        i = i + 1;
    }
    assert(a.subrange(0, args@.len() as int) == a);
    r
}

/// The position of the first outcome that is not a success, if any.
pub fn first_failed(outcomes: &Vec<ProcessOutcome>) -> (r: Option<usize>)
    ensures
        r is None <==> all_succeeded(outcomes@),
        r matches Some(k) ==> is_first_failure(outcomes@, k as int),
{
    let mut i: usize = 0;
    while i < outcomes.len()
        invariant
            i <= outcomes@.len(),
            forall|j: int| 0 <= j < i ==> #[trigger] succeeded(outcomes@[j]),
        decreases outcomes@.len() - i,
    {
        let ok = match &outcomes[i] {
            ProcessOutcome::Exited { code: Some(c), .. } => *c == 0,
            _ => false,
        };
        assert(ok == succeeded(outcomes@[i as int]));
        if !ok {
            assert(!all_succeeded(outcomes@));
            return Some(i);
        }
        i = i + 1;
    }
    None
}

fn compile_report(o: &ProcessOutcome, command: String, source: &String) -> (e: Error)
    ensures
        is_compile_report(e, *o, command@, source@),
{
    match o {
        ProcessOutcome::NotStarted => Error::Launch { command },
        ProcessOutcome::Exited { stdout, stderr, .. } => Error::Compile {
            command,
            source: source.clone(),
            stdout: stdout.clone(),
            stderr: stderr.clone(),
        },
    }
}

fn archive_report(o: &ProcessOutcome, command: String) -> (e: Error)
    ensures
        is_archive_report(e, *o, command@),
{
    match o {
        ProcessOutcome::NotStarted => Error::Launch { command },
        ProcessOutcome::Exited { stdout, stderr, .. } => Error::Archive {
            command,
            stdout: stdout.clone(),
            stderr: stderr.clone(),
        },
    }
}

impl KernelUnit {
    /// The unit of a source path; fails where the path names no file.
    pub fn new(source: String) -> (r: Result<KernelUnit, Error>)
        ensures
            stem_of(source@) matches Some(s) ==> (r matches Ok(u) && u.source@ == source@ && u.stem@ == s),
            stem_of(source@) is None ==> (r matches Err(Error::InvalidKernelPath { path }) && path@ == source@),
    {
        match file_stem(source.as_str()) {
            Some(stem) => Ok(KernelUnit { source, stem }),
            None => Err(Error::InvalidKernelPath { path: source }),
        }
    }

    /// Where this unit's artifact, with extension `ext`, lies in `dir`.
    pub fn artifact_path(&self, dir: &str, ext: &str) -> (r: String)
        ensures
            r@ == joined(dir@, artifact_name(self.stem@, ext@)),
    {
        let mut name = self.stem.clone();
        name.append(".");
        name.append(ext);
        join_path(dir, name.as_str())
    }
}

/// The units of the kernel paths, in order; fails on the first path that
/// names no file.
pub fn kernel_units(paths: &Vec<String>) -> (r: Result<Vec<KernelUnit>, Error>)
    ensures
        r is Ok <==> all_have_stems(views_of(paths@)),
        r matches Ok(us) ==> units_of(us@, views_of(paths@)),
        r matches Err(e) ==> (e matches Error::InvalidKernelPath { path } && exists|i: int|
            0 <= i < paths@.len() && #[trigger] paths@[i]@ == path@ && stem_of(paths@[i]@) is None),
{
    let ghost ps = views_of(paths@);
    let mut units: Vec<KernelUnit> = Vec::new();
    let mut i: usize = 0;
    while i < paths.len()
        invariant
            i <= paths@.len(),
            ps == views_of(paths@),
            units_of(units@, ps.subrange(0, i as int)),
            forall|j: int| 0 <= j < i ==> #[trigger] stem_of(ps[j]) is Some,
        decreases paths@.len() - i,
    {
        assert(ps[i as int] == paths@[i as int]@);
        match KernelUnit::new(paths[i].clone()) {
            Ok(u) => units.push(u),
            Err(e) => {
                assert(!all_have_stems(ps));
                return Err(e);
            },
        }
        i = i + 1;
    }
    assert(ps.subrange(0, paths@.len() as int) == ps);
    Ok(units)
}

/// The artifact path, in `dir`, of each unit, with extension `ext`.
pub fn artifact_paths(dir: &str, units: &Vec<KernelUnit>, ext: &str) -> (r: Vec<String>)
    ensures
        artifact_paths_of(views_of(r@), dir@, units@, ext@),
{
    let mut r: Vec<String> = Vec::new();
    let mut i: usize = 0;
    while i < units.len()
        invariant
            i <= units@.len(),
            artifact_paths_of(views_of(r@), dir@, units@.subrange(0, i as int), ext@),
        decreases units@.len() - i,
    {
        let p = units[i].artifact_path(dir, ext);
        let ghost prev = views_of(r@);
        r.push(p);
        assert(views_of(r@) =~= prev.push(p@));
        assert(units@.subrange(0, i + 1).drop_last() =~= units@.subrange(0, i as int));
        i = i + 1;
    }
    assert(units@.subrange(0, units@.len() as int) == units@);
    r
}

/// Where each include file is staged in `dir`; fails on the first path that
/// names no file.
pub fn staged_include_paths(dir: &str, files: &Vec<String>) -> (r: Result<Vec<String>, Error>)
    ensures
        r is Ok <==> all_have_names(views_of(files@)),
        r matches Ok(v) ==> staged_paths_of(views_of(v@), dir@, views_of(files@)),
        r matches Err(e) ==> (e matches Error::InvalidIncludePath { path } && exists|i: int|
            0 <= i < files@.len() && #[trigger] files@[i]@ == path@ && file_name_of(files@[i]@) is None),
{
    let ghost fs = views_of(files@);
    let mut r: Vec<String> = Vec::new();
    let mut i: usize = 0;
    while i < files.len()
        invariant
            i <= files@.len(),
            fs == views_of(files@),
            staged_paths_of(views_of(r@), dir@, fs.subrange(0, i as int)),
            forall|j: int| 0 <= j < i ==> #[trigger] file_name_of(fs[j]) is Some,
        decreases files@.len() - i,
    {
        assert(fs[i as int] == files@[i as int]@);
        match file_name(files[i].as_str()) {
            Some(n) => {
                let p = join_path(dir, n.as_str());
                let ghost prev = views_of(r@);
                r.push(p);
                assert(views_of(r@) =~= prev.push(p@));
                assert(fs.subrange(0, i + 1).drop_last() =~= fs.subrange(0, i as int));
            },
            None => {
                assert(!all_have_names(fs));
                return Err(Error::InvalidIncludePath { path: files[i].clone() });
            },
        }
        i = i + 1;
    }
    assert(fs.subrange(0, files@.len() as int) == fs);
    Ok(r)
}

/// The search-path flag of each include directory.
pub fn include_options(dirs: &Vec<String>) -> (r: Vec<String>)
    ensures
        views_of(r@) == views_of(dirs@).map_values(|d: Seq<char>| include_flag(d)),
{
    let mut r: Vec<String> = Vec::new();
    let mut i: usize = 0;
    while i < dirs.len()
        invariant
            i <= dirs@.len(),
            views_of(r@) == views_of(dirs@.subrange(0, i as int)).map_values(|d: Seq<char>| include_flag(d)),
        decreases dirs@.len() - i,
    {
        let mut f = String::from_str("-I");
        f.append(dirs[i].as_str());
        let ghost prev = views_of(r@);
        r.push(f);
        assert(views_of(r@) =~= prev.push(f@));
        assert(views_of(dirs@.subrange(0, i + 1)) =~= views_of(dirs@.subrange(0, i as int)).push(dirs@[i as int]@));
        assert(views_of(r@) =~= views_of(dirs@.subrange(0, i + 1)).map_values(|d: Seq<char>| include_flag(d)));
        i = i + 1;
    }
    assert(dirs@.subrange(0, dirs@.len() as int) == dirs@);
    r
}

/// The configuration of a build, set once and then planned from.
#[derive(Debug)]
pub struct Builder {
    /// The toolchain's installation directory.
    pub cuda_root: Option<String>,
    /// The sources to compile, one unit each.
    pub kernel_paths: Vec<String>,
    /// Header files staged into the output directory.
    pub include_paths: Vec<String>,
    /// The resolved architecture identifier.
    pub compute_cap: Option<usize>,
    /// Where artifacts and staged headers are written.
    pub out_dir: String,
    /// Flags handed to the compiler, in order.
    pub extra_args: Vec<String>,
    /// A host compiler to use in place of the toolchain's default.
    pub host_compiler: Option<String>,
    /// How many compiler processes may run at once.
    pub num_threads: usize,
}

/// A planned build of portable-assembly artifacts, one per unit.
#[derive(Debug)]
pub struct PtxPlan {
    pub compute_cap: usize,
    pub out_dir: String,
    /// The toolchain's header directory.
    pub cuda_include_dir: String,
    pub units: Vec<KernelUnit>,
    /// The artifact path of each unit, in unit order.
    pub outputs: Vec<String>,
    /// The header files to stage, and where each is staged.
    pub include_sources: Vec<String>,
    pub include_destinations: Vec<String>,
    /// The search-path flags of the staged headers' directories.
    pub include_options: Vec<String>,
    pub extra_args: Vec<String>,
    pub host_compiler: Option<String>,
}

/// A planned build of one library archive from relocatable objects.
#[derive(Debug)]
pub struct LibraryPlan {
    pub compute_cap: usize,
    pub units: Vec<KernelUnit>,
    /// The object path of each unit, in unit order.
    pub objects: Vec<String>,
    pub out_file: String,
    pub extra_args: Vec<String>,
    pub host_compiler: Option<String>,
}

/// `p` is the plan of a portable-assembly build configured by `b`.
pub open spec fn is_ptx_plan(b: Builder, p: PtxPlan) -> bool {
    &&& b.cuda_root matches Some(root) && p.cuda_include_dir@ == joined(root@, "include"@)
    &&& b.compute_cap == Some(p.compute_cap)
    &&& p.out_dir@ == b.out_dir@
    &&& units_of(p.units@, views_of(b.kernel_paths@))
    &&& artifact_paths_of(views_of(p.outputs@), b.out_dir@, p.units@, "ptx"@)
    &&& views_of(p.include_sources@) == views_of(b.include_paths@)
    &&& staged_paths_of(views_of(p.include_destinations@), b.out_dir@, views_of(b.include_paths@))
    &&& exists|dirs: Seq<Seq<char>>| is_include_directory_list(dirs, views_of(b.include_paths@))
        && views_of(p.include_options@) == dirs.map_values(|d: Seq<char>| include_flag(d))
    &&& views_of(p.extra_args@) == views_of(b.extra_args@)
    &&& host_view(p.host_compiler) == host_view(b.host_compiler)
}

/// `p` is the plan of a library build configured by `b`, archived to `out_file`.
pub open spec fn is_library_plan(b: Builder, out_file: Seq<char>, p: LibraryPlan) -> bool {
    &&& b.compute_cap == Some(p.compute_cap)
    &&& units_of(p.units@, views_of(b.kernel_paths@))
    &&& artifact_paths_of(views_of(p.objects@), b.out_dir@, p.units@, "o"@)
    &&& p.out_file@ == out_file
    &&& views_of(p.extra_args@) == views_of(b.extra_args@)
    &&& host_view(p.host_compiler) == host_view(b.host_compiler)
}

pub open spec fn ptx_command_of(p: PtxPlan, i: int) -> Seq<Seq<char>> {
    ptx_args(
        p.compute_cap,
        p.out_dir@,
        views_of(p.extra_args@),
        views_of(p.include_options@),
        host_view(p.host_compiler),
        p.units@[i].source@,
    )
}

pub open spec fn object_command_of(p: LibraryPlan, i: int) -> Seq<Seq<char>> {
    object_args(
        p.compute_cap,
        p.objects@[i]@,
        views_of(p.extra_args@),
        host_view(p.host_compiler),
        p.units@[i].source@,
    )
}

fn copy_texts(v: &Vec<String>) -> (r: Vec<String>)
    ensures
        views_of(r@) == views_of(v@),
{
    let mut r: Vec<String> = Vec::new();
    push_all(&mut r, v);
    assert(views_of(r@) =~= views_of(v@));
    r
}

fn copy_host(h: &Option<String>) -> (r: Option<String>)
    ensures
        host_view(r) == host_view(*h),
{
    match h {
        Some(p) => Some(p.clone()),
        None => None,
    }
}

impl Builder {
    /// Plans a portable-assembly build: the units, their artifact paths,
    /// where headers are staged, and the include search flags, sorted and
    /// each given once.
    pub fn plan_ptx(&self) -> (r: Result<PtxPlan, Error>)
        ensures
            self.cuda_root is None ==> (r matches Err(Error::MissingCudaRoot)),
            self.cuda_root is Some && self.compute_cap is None ==> (r matches Err(Error::MissingComputeCap)),
            r is Ok <==> (self.cuda_root is Some && self.compute_cap is Some
                && all_have_stems(views_of(self.kernel_paths@))
                && all_have_names(views_of(self.include_paths@))),
            self.cuda_root is Some && self.compute_cap is Some && !all_have_stems(views_of(self.kernel_paths@))
                ==> (r matches Err(Error::InvalidKernelPath { .. })),
            self.cuda_root is Some && self.compute_cap is Some && all_have_stems(views_of(self.kernel_paths@))
                && !all_have_names(views_of(self.include_paths@))
                ==> (r matches Err(Error::InvalidIncludePath { .. })),
            r matches Ok(p) ==> is_ptx_plan(*self, p),
    {
        let root = match &self.cuda_root {
            Some(root) => root,
            None => return Err(Error::MissingCudaRoot),
        };
        let cap = match self.compute_cap {
            Some(c) => c,
            None => return Err(Error::MissingComputeCap),
        };
        let units = match kernel_units(&self.kernel_paths) {
            Ok(u) => u,
            Err(e) => return Err(e),
        };
        let destinations = match staged_include_paths(self.out_dir.as_str(), &self.include_paths) {
            Ok(d) => d,
            Err(e) => return Err(e),
        };
        let dirs = include_directories(&self.include_paths);
        let options = include_options(&dirs);
        let outputs = artifact_paths(self.out_dir.as_str(), &units, "ptx");
        let cuda_include_dir = join_path(root.as_str(), "include");
        let p = PtxPlan {
            compute_cap: cap,
            out_dir: self.out_dir.clone(),
            cuda_include_dir,
            units,
            outputs,
            include_sources: copy_texts(&self.include_paths),
            include_destinations: destinations,
            include_options: options,
            extra_args: copy_texts(&self.extra_args),
            host_compiler: copy_host(&self.host_compiler),
        };
        assert(is_include_directory_list(views_of(dirs@), views_of(self.include_paths@)));
        Ok(p)
    }

    /// Plans a library build archived to `out_file`: the units and the
    /// object path of each.
    pub fn plan_lib(&self, out_file: String) -> (r: Result<LibraryPlan, Error>)
        ensures
            self.compute_cap is None ==> (r matches Err(Error::MissingComputeCap)),
            r is Ok <==> (self.compute_cap is Some && all_have_stems(views_of(self.kernel_paths@))),
            self.compute_cap is Some && !all_have_stems(views_of(self.kernel_paths@))
                ==> (r matches Err(Error::InvalidKernelPath { .. })),
            r matches Ok(p) ==> is_library_plan(*self, out_file@, p),
    {
        let cap = match self.compute_cap {
            Some(c) => c,
            None => return Err(Error::MissingComputeCap),
        };
        let units = match kernel_units(&self.kernel_paths) {
            Ok(u) => u,
            Err(e) => return Err(e),
        };
        let objects = artifact_paths(self.out_dir.as_str(), &units, "o");
        Ok(LibraryPlan {
            compute_cap: cap,
            units,
            objects,
            out_file,
            extra_args: copy_texts(&self.extra_args),
            host_compiler: copy_host(&self.host_compiler),
        })
    }
}

impl PtxPlan {
    /// The compiler's arguments for unit `i`.
    pub fn command(&self, i: usize) -> (r: Vec<String>)
        requires
            i < self.units@.len(),
        ensures
            views_of(r@) == ptx_command_of(*self, i as int),
    {
        let mut r: Vec<String> = Vec::new();
        r.push(arch_flag_text(self.compute_cap));
        push_text(&mut r, "--ptx");
        push_text(&mut r, "--default-stream");
        push_text(&mut r, "per-thread");
        push_text(&mut r, "--output-directory");
        push_text(&mut r, self.out_dir.as_str());
        push_all(&mut r, &self.extra_args);
        push_all(&mut r, &self.include_options);
        push_host_compiler_args(&mut r, &self.host_compiler);
        push_text(&mut r, self.units[i].source.as_str());
        assert(views_of(r@) =~= ptx_command_of(*self, i as int));
        r
    }

    /// The verdict on a build whose stale units, at positions `stale`, were
    /// compiled with the outcomes `outcomes`, in the same order, while
    /// `n_artifacts` artifacts now lie in the output directory. The first
    /// failure in unit order is reported, with its command line and output.
    pub fn finish(self, stale: &Vec<usize>, outcomes: &Vec<ProcessOutcome>, n_artifacts: usize) -> (r:
        Result<Bindings, Error>)
        requires
            stale@.len() == outcomes@.len(),
            forall|k: int| 0 <= k < stale@.len() ==> #[trigger] stale@[k] < self.units@.len(),
        ensures
            r is Ok <==> all_succeeded(outcomes@),
            r matches Ok(b) ==> b.write == changed_signal(stale@.len() as nat, self.units@.len() as nat, n_artifacts as nat)
                && b.units@ == self.units@,
            forall|k: int| is_first_failure(outcomes@, k) ==> (r matches Err(e) && is_compile_report(
                e,
                outcomes@[k],
                command_line_text("nvcc"@, ptx_command_of(self, stale@[k] as int)),
                self.units@[stale@[k] as int].source@,
            )),
    {
        match first_failed(outcomes) {
            None => {
                let write = changed(stale.len(), self.units.len(), n_artifacts);
                Ok(Bindings { write, units: self.units })
            },
            Some(k) => {
                let u = stale[k];
                let args = self.command(u);
                let line = command_line("nvcc", &args);
                let e = compile_report(&outcomes[k], line, &self.units[u].source);
                Err(e)
            },
        }
    }
}

impl LibraryPlan {
    /// The compiler's arguments for unit `i`.
    pub fn object_command(&self, i: usize) -> (r: Vec<String>)
        requires
            i < self.units@.len(),
            i < self.objects@.len(),
        ensures
            views_of(r@) == object_command_of(*self, i as int),
    {
        let mut r: Vec<String> = Vec::new();
        r.push(arch_flag_text(self.compute_cap));
        push_text(&mut r, "-c");
        push_text(&mut r, "-o");
        push_text(&mut r, self.objects[i].as_str());
        push_text(&mut r, "--default-stream");
        push_text(&mut r, "per-thread");
        push_all(&mut r, &self.extra_args);
        push_host_compiler_args(&mut r, &self.host_compiler);
        push_text(&mut r, self.units[i].source.as_str());
        assert(views_of(r@) =~= object_command_of(*self, i as int));
        r
    }

    /// The archiver's arguments.
    pub fn archive_command(&self) -> (r: Vec<String>)
        ensures
            views_of(r@) == archive_args(self.out_file@, views_of(self.objects@)),
    {
        let mut r: Vec<String> = Vec::new();
        push_text(&mut r, "--lib");
        push_text(&mut r, "-o");
        push_text(&mut r, self.out_file.as_str());
        push_all(&mut r, &self.objects);
        assert(views_of(r@) =~= archive_args(self.out_file@, views_of(self.objects@)));
        r
    }

    /// The verdict on the compilation of every unit, with `outcomes` in unit
    /// order: the first failure is reported.
    pub fn check_objects(&self, outcomes: &Vec<ProcessOutcome>) -> (r: Result<(), Error>)
        requires
            outcomes@.len() == self.units@.len(),
            self.objects@.len() == self.units@.len(),
        ensures
            r is Ok <==> all_succeeded(outcomes@),
            forall|k: int| is_first_failure(outcomes@, k) ==> (r matches Err(e) && is_compile_report(
                e,
                outcomes@[k],
                command_line_text("nvcc"@, object_command_of(*self, k)),
                self.units@[k].source@,
            )),
    {
        match first_failed(outcomes) {
            None => Ok(()),
            Some(k) => {
                let args = self.object_command(k);
                let line = command_line("nvcc", &args);
                Err(compile_report(&outcomes[k], line, &self.units[k].source))
            },
        }
    }

    /// The verdict on the archiving step.
    pub fn check_archive(&self, outcome: &ProcessOutcome) -> (r: Result<(), Error>)
        ensures
            r is Ok <==> succeeded(*outcome),
            !succeeded(*outcome) ==> (r matches Err(e) && is_archive_report(
                e,
                *outcome,
                command_line_text("nvcc"@, archive_args(self.out_file@, views_of(self.objects@))),
            )),
    {
        let ok = match outcome {
            ProcessOutcome::Exited { code: Some(c), .. } => *c == 0,
            _ => false,
        };
        if ok {
            Ok(())
        } else {
            let args = self.archive_command();
            let line = command_line("nvcc", &args);
            Err(archive_report(outcome, line))
        }
    }
}

impl Builder {
    /// A configuration with the given output directory and process bound,
    /// and nothing else set.
    pub fn new(out_dir: String, num_threads: usize) -> (r: Builder)
        ensures
            r.out_dir@ == out_dir@,
            r.num_threads == num_threads,
            r.cuda_root is None,
            r.compute_cap is None,
            r.host_compiler is None,
            r.kernel_paths@.len() == 0,
            r.include_paths@.len() == 0,
            r.extra_args@.len() == 0,
    {
        Builder {
            cuda_root: None,
            kernel_paths: Vec::new(),
            include_paths: Vec::new(),
            compute_cap: None,
            out_dir,
            extra_args: Vec::new(),
            host_compiler: None,
            num_threads,
        }
    }

    /// Sets the sources to compile; the caller has checked that each exists.
    pub fn kernel_paths(self, paths: Vec<String>) -> (r: Builder)
        ensures
            r == (Builder { kernel_paths: paths, ..self }),
    {
        Builder { kernel_paths: paths, ..self }
    }

    /// Sets the header files to stage.
    pub fn include_paths(self, paths: Vec<String>) -> (r: Builder)
        ensures
            r == (Builder { include_paths: paths, ..self }),
    {
        Builder { include_paths: paths, ..self }
    }

    /// Sets the output directory.
    pub fn out_dir(self, out_dir: String) -> (r: Builder)
        ensures
            r == (Builder { out_dir, ..self }),
    {
        Builder { out_dir, ..self }
    }

    /// Appends one flag for the compiler.
    pub fn arg(self, arg: &str) -> (r: Builder)
        ensures
            views_of(r.extra_args@) == views_of(self.extra_args@).push(arg@),
            r == (Builder { extra_args: r.extra_args, ..self }),
    {
        let mut b = self;
        push_text(&mut b.extra_args, arg);
        b
    }

    /// Sets the toolchain's installation directory.
    pub fn cuda_root(&mut self, path: String)
        ensures
            *final(self) == (Builder { cuda_root: Some(path), ..*old(self) }),
    {
        self.cuda_root = Some(path);
    }

    /// Sets the architecture identifier.
    pub fn compute_cap(self, cap: Option<usize>) -> (r: Builder)
        ensures
            r == (Builder { compute_cap: cap, ..self }),
    {
        Builder { compute_cap: cap, ..self }
    }

    /// Sets the host compiler to use in place of the toolchain's default.
    pub fn host_compiler(self, path: Option<String>) -> (r: Builder)
        ensures
            r == (Builder { host_compiler: path, ..self }),
    {
        Builder { host_compiler: path, ..self }
    }

    /// Sets how many compiler processes may run at once.
    pub fn num_threads(self, n: usize) -> (r: Builder)
        ensures
            r == (Builder { num_threads: n, ..self }),
    {
        Builder { num_threads: n, ..self }
    }
}

} // verus!
