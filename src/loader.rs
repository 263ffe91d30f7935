use vstd::prelude::*;

use crate::paths::{file_name, has_extension, join_path, parent_of, parent_path};

verus! {

/// The extension of the shader sources the loader accepts.
pub open spec fn source_extension() -> Seq<char> {
    seq!['r', 's']
}

/// The directory all asset paths are relative to.
pub open spec fn assets_root() -> Seq<char> {
    seq!['a', 's', 's', 'e', 't', 's']
}

/// The crate root of the shader whose entry file is `asset_path`: two levels up,
/// below the assets root.
pub open spec fn crate_root_of(asset_path: Seq<char>) -> Option<Seq<char>> {
    match parent_of(asset_path) {
        None => None,
        Some(q) => match parent_of(q) {
            None => None,
            Some(c) => Some(join_path(assets_root(), c)),
        },
    }
}

/// Settings of one load: the compilation profile and the output path, relative to
/// the assets root, that the compiled module is copied to.
pub struct CompileSettings {
    pub profile: String,
    pub out_dir: String,
}

/// A loaded shader source; it names the crate it was compiled from.
pub struct RustGpuShader {
    pub crate_root: String,
}

/// Why the compile of a shader crate failed.
#[derive(Clone, Copy, Debug, PartialEq, Eq, Structural)]
pub enum CompileError {
    /// The toolchain reported a failure.
    ToolchainFailed,
    /// The toolchain reported no module.
    NoModule,
    /// The toolchain reported more than one module.
    MultipleModules,
    /// The module could not be copied to its destination.
    CopyFailed,
}

/// Why a load failed.
#[derive(Clone, Copy, Debug, PartialEq, Eq, Structural)]
pub enum LoadError {
    UnsupportedExtension,
    PathResolution,
    Compile(CompileError),
}

/// Everything the toolchain is run with for one shader crate.
pub struct CompileRequest {
    pub crate_root: String,
    /// The target triple of the produced module.
    pub target: String,
    /// The argument that hands the output directory to the toolchain.
    pub out_dir_arg: String,
    /// Whether the toolchain prints its metadata.
    pub print_metadata: bool,
    /// Whether a panicking shader exits silently instead of aborting.
    pub silent_exit_on_panic: bool,
    /// Where the produced module is copied to.
    pub destination: String,
}

/// What a load does before it returns: the crate it is about, and the compile to
/// run, when compiling on load is on.
pub struct LoadPlan {
    pub crate_root: String,
    pub request: Option<CompileRequest>,
}

/// What the toolchain reported: a failure, or the paths of the modules it produced.
pub enum BuildOutcome {
    Failed,
    Built(Vec<String>),
}

/// Copy the file at `from` over the file at `to`.
pub struct CopyStep {
    pub from: String,
    pub to: String,
}

/// The copy that follows a build for `destination`: the one produced module onto the
/// destination, or the error that stops the load before anything is written.
pub open spec fn copy_decision(destination: Seq<char>, outcome: BuildOutcome) -> Result<
    (Seq<char>, Seq<char>),
    CompileError,
> {
    match outcome {
        BuildOutcome::Failed => Err(CompileError::ToolchainFailed),
        BuildOutcome::Built(modules) => if modules@.len() == 1 {
            Ok((modules@[0]@, destination))
        } else if modules@.len() == 0 {
            Err(CompileError::NoModule)
        } else {
            Err(CompileError::MultipleModules)
        },
    }
}

/// The files after a copy decision is carried out: a copy replaces the destination's
/// bytes with the source's; an error writes nothing.
pub open spec fn files_after(
    files: Map<Seq<char>, Seq<u8>>,
    decision: Result<(Seq<char>, Seq<char>), CompileError>,
) -> Map<Seq<char>, Seq<u8>> {
    match decision {
        Ok((from, to)) => files.insert(to, files[from]),
        Err(_) => files,
    }
}

/// Joins `rel` below `base`.
pub fn join(base: &str, rel: &str) -> (r: String)
    ensures
        r@ == join_path(base@, rel@),
{
    let mut s = base.to_string();
    if rel.unicode_len() > 0 {
        s.append("/");
        s.append(rel);
        proof {
            reveal_strlit("/");
            assert(s@ == base@ + seq!['/'] + rel@);
        }
    }
    s
}

/// Derives the crate root of the shader whose entry file is `asset_path`.
pub fn crate_root(asset_path: &String) -> (r: Option<String>)
    ensures
        match r {
            Some(c) => crate_root_of(asset_path@) == Some(c@),
            None => crate_root_of(asset_path@).is_none(),
        },
{
    match parent_path(asset_path.as_str()) {
        None => None,
        Some(q) => match parent_path(q.as_str()) {
            None => None,
            Some(c) => {
                proof {
                    reveal_strlit("assets");
                }
                Some(join("assets", c.as_str()))
            },
        },
    }
}

/// Whether `path` names a shader source.
pub fn is_source_path(path: &String) -> (r: bool)
    ensures
        r == has_extension(path@, source_extension()),
{
    let name = file_name(path.as_str());
    let n = name.unicode_len();
    if n <= 3 {
        return false;
    }
    let r = name.as_str().get_char(n - 3) == '.' && name.as_str().get_char(n - 2) == 'r'
        && name.as_str().get_char(n - 1) == 's';
    proof {
        let tail = name@.subrange(n - 3, n as int);
        if r {
            assert(tail =~= seq!['.'] + source_extension());
        } else {
            let want = seq!['.'] + source_extension();
            assert(want[0] == '.' && want[1] == 'r' && want[2] == 's');
            assert(tail[0] == name@[n - 3] && tail[1] == name@[n - 2] && tail[2] == name@[n - 1]);
        }
    }
    r
}

/// Loads shader sources: checks each request, and when compiling on load is on, says
/// what to compile and where the result goes.
pub struct RustGpuLoader {
    pub compile_on_load: bool,
}

impl RustGpuLoader {
    /// The extension of the files this loader accepts.
    pub fn extensions(&self) -> (r: &'static str)
        ensures
            r@ == source_extension(),
    {
        proof {
            reveal_strlit("rs");
        }
        "rs"
    }

    /// Checks a request for `asset_path` and plans its load. A path with another
    /// extension is refused before anything else; a path less than two levels deep
    /// names no crate.
    pub fn plan_load(&self, asset_path: &String, settings: &CompileSettings) -> (r: Result<
        LoadPlan,
        LoadError,
    >)
        ensures
            !has_extension(asset_path@, source_extension()) ==> r == Err::<LoadPlan, LoadError>(
                LoadError::UnsupportedExtension,
            ),
            has_extension(asset_path@, source_extension()) && crate_root_of(asset_path@).is_none()
                ==> r == Err::<LoadPlan, LoadError>(LoadError::PathResolution),
            has_extension(asset_path@, source_extension()) && crate_root_of(asset_path@).is_some()
                ==> r.is_ok(),
            r matches Ok(plan) ==> {
                &&& crate_root_of(asset_path@) == Some(plan.crate_root@)
                &&& self.compile_on_load == plan.request.is_some()
                &&& plan.request matches Some(req) ==> {
                    &&& req.crate_root@ == plan.crate_root@
                    &&& req.target@ == "spirv-unknown-vulkan1.1"@
                    &&& req.out_dir_arg@ == "OUT_DIR="@ + settings.out_dir@
                    &&& !req.print_metadata
                    &&& req.silent_exit_on_panic
                    &&& req.destination@ == join_path(assets_root(), settings.out_dir@)
                }
            },
    {
        if !is_source_path(asset_path) {
            return Err(LoadError::UnsupportedExtension);
        }
        let root = match crate_root(asset_path) {
            Some(c) => c,
            None => {
                return Err(LoadError::PathResolution);
            },
        };
        if !self.compile_on_load {
            return Ok(LoadPlan { crate_root: root, request: None });
        }
        let mut arg = String::from_str("OUT_DIR=");
        arg.append(settings.out_dir.as_str());
        proof {
            reveal_strlit("assets");
        }
        let destination = join("assets", settings.out_dir.as_str());
        let request = CompileRequest {
            crate_root: root.clone(),
            target: String::from_str("spirv-unknown-vulkan1.1"),
            out_dir_arg: arg,
            print_metadata: false,
            silent_exit_on_panic: true,
            destination,
        };
        Ok(LoadPlan { crate_root: root, request: Some(request) })
    }
}

/// Decides what follows a build for `request`: copy the one module produced onto the
/// destination, or fail without writing.
pub fn copy_step(request: &CompileRequest, outcome: &BuildOutcome) -> (r: Result<
    CopyStep,
    CompileError,
>)
    ensures
        match r {
            Ok(s) => copy_decision(request.destination@, *outcome) == Ok::<
                (Seq<char>, Seq<char>),
                CompileError,
            >((s.from@, s.to@)),
            Err(e) => copy_decision(request.destination@, *outcome) == Err::<
                (Seq<char>, Seq<char>),
                CompileError,
            >(e),
        },
{
    match outcome {
        BuildOutcome::Failed => Err(CompileError::ToolchainFailed),
        BuildOutcome::Built(modules) => {
            if modules.len() == 1 {
                Ok(CopyStep { from: modules[0].clone(), to: request.destination.clone() })
            } else if modules.len() == 0 {
                Err(CompileError::NoModule)
            } else {
                Err(CompileError::MultipleModules)
            }
        },
    }
}

/// Ends a load: the shader of the planned crate once its compile, if any, went
/// through; the compile's error otherwise.
pub fn finish_load(plan: LoadPlan, compiled: Result<(), CompileError>) -> (r: Result<
    RustGpuShader,
    LoadError,
>)
    ensures
        match compiled {
            Ok(()) => r matches Ok(s) && s.crate_root@ == plan.crate_root@,
            Err(e) => r == Err::<RustGpuShader, LoadError>(LoadError::Compile(e)),
        },
{
    match compiled {
        Ok(()) => Ok(RustGpuShader { crate_root: plan.crate_root }),
        Err(e) => Err(LoadError::Compile(e)),
    }
}

/// After a successful compile the destination holds exactly the bytes of the module
/// the toolchain produced.
pub proof fn lemma_copy_is_exact(
    files: Map<Seq<char>, Seq<u8>>,
    destination: Seq<char>,
    outcome: BuildOutcome,
)
    requires
        copy_decision(destination, outcome) is Ok,
    ensures
        outcome matches BuildOutcome::Built(modules) && modules@.len() == 1 && files_after(
            files,
            copy_decision(destination, outcome),
        )[destination] == files[modules@[0]@],
{
}

/// A build that reports more than one module fails the compile and writes no file.
pub proof fn lemma_multiple_modules_write_nothing(
    files: Map<Seq<char>, Seq<u8>>,
    destination: Seq<char>,
    modules: Vec<String>,
)
    requires
        modules@.len() > 1,
    ensures
        copy_decision(destination, BuildOutcome::Built(modules)) == Err::<
            (Seq<char>, Seq<char>),
            CompileError,
        >(CompileError::MultipleModules),
        files_after(files, copy_decision(destination, BuildOutcome::Built(modules))) == files,
{
}

/// A failed toolchain run leaves every file, the earlier output included, as it was.
pub proof fn lemma_failed_build_keeps_output(
    files: Map<Seq<char>, Seq<u8>>,
    destination: Seq<char>,
)
    ensures
        files_after(files, copy_decision(destination, BuildOutcome::Failed)) == files,
{
}

} // verus!
