//! A small process-pipeline supervisor core.
//!
//! Given a shell-pipe-style expression such as `"cmdA -x | cmdB | cmdC"`,
//! this library parses the expression into stages, plans how the stages'
//! standard streams are wired together, models the supervisor that waits
//! for the stages and carries out graceful shutdown, and keeps the
//! head-process record that lets a separate stop request find a running
//! pipeline by name.  Everything that touches the operating system
//! (spawning, signalling, the file system) is left to the embedding
//! program; this crate holds the decisions and proves them correct.

pub mod chain;
pub mod errors;
pub mod paths;
pub mod pidstr;
pub mod pipeline;
pub mod registry;
pub mod supervisor;
pub mod tokenizer;

pub use errors::IoErrorKind;
pub use errors::PipelineError;
pub use pipeline::Pipeline;
pub use registry::Registry;
pub use supervisor::Supervisor;
pub use tokenizer::PipelineCommand;
