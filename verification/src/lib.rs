//! Hot-path verification for compiler intermediate representation (IR) text.
//!
//! Functions annotated as latency-critical leave two traces in the compiled
//! artifact's textual IR: a string constant holding the function's name and a
//! pointer entry in the `.hot_funcs` section referencing that constant. This
//! crate discovers those functions, extracts each one's instruction body, and
//! scans it line by line for patterns that break real-time guarantees (heap
//! allocation, atomics, non-inlined calls) or merely cost latency (volatile
//! access, division, unaligned access).

pub mod checks;
pub mod discover;
pub mod extract;
pub mod mangle;
pub mod text;
pub mod verify_hot_path;

pub use checks::AllocationCheck;
pub use checks::AtomicCheck;
pub use checks::Check;
pub use checks::DivisionCheck;
pub use checks::FunctionCallCheck;
pub use checks::HotPathCheck;
pub use checks::IndirectionCheck;
pub use checks::NonInboundsGepCheck;
pub use checks::Severity;
pub use checks::UnalignedAccessCheck;
pub use checks::VolatileLoadCheck;
pub use checks::VolatileStoreCheck;
pub use discover::HotFunctionSet;
pub use discover::find_hot_functions_from_ir;
pub use mangle::mangle_rust_path;
pub use verify_hot_path::HotPathVerifier;
pub use verify_hot_path::verify_hot_function;
pub use verify_hot_path::verify_hot_path_functions;
