//! Incremental compilation of device kernels into embeddable artifacts:
//! architecture resolution, staleness decisions, compiler command lines,
//! failure aggregation and generated bindings.

pub mod bindings;
pub mod capability;
pub mod dispatch;
pub mod error;
pub mod paths;
pub mod staleness;
pub mod text;

pub use bindings::{Bindings, KernelUnit};
pub use capability::CapabilityError;
pub use dispatch::{Builder, LibraryPlan, ProcessOutcome, PtxPlan};
pub use error::Error;
pub use staleness::UnitTimes;
