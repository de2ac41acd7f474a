//! The errors of planning and running a build, and the text that reports each.

use vstd::prelude::*;
use crate::capability::CapabilityError;
use crate::text::{decimal_text, push_decimal};

verus! {

/// Why a build could not be planned or did not succeed.
#[derive(Debug, Clone)]
pub enum Error {
    /// No valid architecture identifier.
    Capability(CapabilityError),
    /// The build was asked for with no architecture identifier resolved.
    MissingComputeCap,
    /// The toolchain's installation directory is not known.
    MissingCudaRoot,
    /// A kernel path names no file.
    InvalidKernelPath { path: String },
    /// An include path names no file.
    InvalidIncludePath { path: String },
    /// The compiler could not be started.
    Launch { command: String },
    /// The compiler ran on a unit and failed.
    Compile { command: String, source: String, stdout: String, stderr: String },
    /// The archiver ran and failed.
    Archive { command: String, stdout: String, stderr: String },
}

pub open spec fn capability_message(c: CapabilityError) -> Seq<char> {
    match c {
        CapabilityError::Unparsable => "the architecture identifier is not a number"@,
        CapabilityError::DeviceQueryFormat => "the device query did not report a compute_cap value"@,
        CapabilityError::NoDeviceQuery => "no architecture identifier was requested and the device query gave no answer"@,
        CapabilityError::NoGpuCodes => "no gpu codes parsed from nvcc"@,
        CapabilityError::Unsupported { cap } => "nvcc cannot target gpu arch "@ + decimal_text(cap as nat),
    }
}

pub open spec fn output_sections(stdout: Seq<char>, stderr: Seq<char>) -> Seq<char> {
    "\n\n# stdout\n"@ + stdout + "\n\n# stderr\n"@ + stderr
}

/// The text that reports an error.
pub open spec fn error_message(e: Error) -> Seq<char> {
    match e {
        Error::Capability(c) => capability_message(c),
        Error::MissingComputeCap => "could not find compute_cap"@,
        Error::MissingCudaRoot => "could not find CUDA in standard locations, set its root manually"@,
        Error::InvalidKernelPath { path } => "kernel path names no file: "@ + path@,
        Error::InvalidIncludePath { path } => "include path names no file: "@ + path@,
        Error::Launch { command } => "nvcc failed to start; ensure that CUDA is installed and that nvcc is in PATH: "@
            + command@,
        Error::Compile { command, source, stdout, stderr } => "nvcc error while compiling "@ + source@ + ": "@
            + command@ + output_sections(stdout@, stderr@),
        Error::Archive { command, stdout, stderr } => "nvcc error while linking: "@ + command@
            + output_sections(stdout@, stderr@),
    }
}

fn capability_text(c: CapabilityError) -> (r: String)
    ensures
        r@ == capability_message(c),
{
    match c {
        CapabilityError::Unparsable => String::from_str("the architecture identifier is not a number"),
        CapabilityError::DeviceQueryFormat => String::from_str(
            "the device query did not report a compute_cap value",
        ),
        CapabilityError::NoDeviceQuery => String::from_str(
            "no architecture identifier was requested and the device query gave no answer",
        ),
        CapabilityError::NoGpuCodes => String::from_str("no gpu codes parsed from nvcc"),
        CapabilityError::Unsupported { cap } => {
            let mut s = String::from_str("nvcc cannot target gpu arch ");
            push_decimal(&mut s, cap);
            s
        },
    }
}

fn append_output_sections(out: &mut String, stdout: &String, stderr: &String)
    ensures
        final(out)@ == old(out)@ + output_sections(stdout@, stderr@),
{
    out.append("\n\n# stdout\n");
    out.append(stdout.as_str());
    out.append("\n\n# stderr\n");
    out.append(stderr.as_str());
    assert(final(out)@ =~= old(out)@ + output_sections(stdout@, stderr@));
}

impl Error {
    /// The text that reports this error; a failed process's report holds its
    /// command line and both of its output streams.
    pub fn message(&self) -> (r: String)
        ensures
            r@ == error_message(*self),
    {
        match self {
            Error::Capability(c) => capability_text(*c),
            Error::MissingComputeCap => String::from_str("could not find compute_cap"),
            Error::MissingCudaRoot => String::from_str(
                "could not find CUDA in standard locations, set its root manually",
            ),
            Error::InvalidKernelPath { path } => String::from_str("kernel path names no file: ").concat(
                path.as_str(),
            ),
            Error::InvalidIncludePath { path } => String::from_str("include path names no file: ").concat(
                path.as_str(),
            ),
            Error::Launch { command } => String::from_str(
                "nvcc failed to start; ensure that CUDA is installed and that nvcc is in PATH: ",
            ).concat(command.as_str()),
            Error::Compile { command, source, stdout, stderr } => {
                let mut s = String::from_str("nvcc error while compiling ");
                s.append(source.as_str());
                s.append(": ");
                s.append(command.as_str());
                append_output_sections(&mut s, stdout, stderr);
                assert(s@ =~= error_message(*self));
                s
            },
            Error::Archive { command, stdout, stderr } => {
                let mut s = String::from_str("nvcc error while linking: ");
                s.append(command.as_str());
                append_output_sections(&mut s, stdout, stderr);
                assert(s@ =~= error_message(*self));
                s
            },
        }
    }
}

} // verus!
