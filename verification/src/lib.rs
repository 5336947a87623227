//! Locates, at runtime, the in-memory address of one named native entry point
//! that the operating system may withhold from standard dynamic-symbol lookup.
//!
//! The crate is organised around a priority-ordered set of resolution
//! strategies. A direct strategy queries the running process's own exported
//! symbol table; on platforms where the symbol is hidden, a fallback strategy
//! enumerates the loaded modules of the process, reads the matching module's
//! backing file from disk, parses it as an executable image, and computes the
//! symbol's absolute address from the module's load bias and the symbol's
//! recorded value offset.
//!
//! Everything that decides or computes lives here: filename selection
//! ([`modules::target_filename`]), module scanning ([`modules::select_module`]),
//! chunked-read reassembly ([`reader::ByteAccumulator`]), image parsing
//! ([`elf::BinaryImage`]), address computation ([`fallback::resolve_in_image`])
//! and strategy ordering ([`dispatch::Dispatcher`]). The operating-system
//! calls that feed these functions (symbol-table handles, module enumeration,
//! file reads, the configuration property) are left to the embedding program,
//! which hands their results in as plain values.

use vstd::prelude::*;

pub mod bytes;
pub mod dispatch;
pub mod elf;
pub mod fallback;
pub mod modules;
pub mod reader;

verus! {

/// Why a resolution strategy produced no address.
///
/// Each failure is local to the strategy that produced it; the dispatcher
/// collapses every failure to an absent result and moves to the next strategy
/// in priority order.
#[derive(Clone, Copy, Debug, PartialEq, Eq, Structural)]
pub enum ResolveError {
    /// No loaded module's reported path ended with the target filename.
    ModuleNotFound,
    /// The matched module's backing file could not be opened, measured or read.
    Unreadable,
    /// The bytes read from disk failed image validation, or the computed
    /// address would not fit in the address space.
    MalformedImage,
    /// The image parsed, but no symbol-table entry carries the target name.
    SymbolNotFound,
    /// No resolution strategy is available on the current platform.
    PlatformUnsupported,
}

/// A successfully located symbol: its absolute in-memory address.
///
/// The fallback strategy computes it as the module's load bias plus the
/// symbol's recorded value offset; the direct strategy takes it from the
/// symbol-table query. It is kept as a plain integer; reinterpreting it as a
/// function pointer is the embedding program's single audited boundary.
#[derive(Clone, Copy, Debug, PartialEq, Eq, Structural)]
pub struct ResolvedSymbol {
    pub absolute_address: u64,
}

} // verus!
