//! The restricted-platform fallback strategy's computation: from the bytes
//! of the matched module's backing file and the module's load bias to the
//! symbol's absolute address.
//!
//! The embedding program supplies the file's bytes (read through
//! [`crate::reader::ByteAccumulator`]) after [`crate::modules::select_module`]
//! has picked the module; everything from there on — parsing, the symbol
//! search, and the address computation — is decided here.

use crate::elf::{spec_find, spec_parse, BinaryImage};
use crate::modules::{
    is_path_suffix, module_paths, select_module, spec_target_filename, ModuleRecord,
};
use crate::{ResolveError, ResolvedSymbol};
use vstd::prelude::*;

verus! {

/// The module the fallback strategy settles on: its position in the scanned
/// list and the base address it is mapped at.
#[derive(Clone, Copy, Debug, PartialEq, Eq, Structural)]
pub struct ModuleMatch {
    pub index: usize,
    pub load_bias: u64,
}

/// Chooses the target filename from the configuration property and scans the
/// module list for the first record whose reported path ends with it.
///
/// Yields the matched record's index and load bias; fails with the
/// module-not-found error exactly when no reported path matches. The scan
/// stops at the first match, so no record past it is ever looked at.
pub fn locate_module(modules: &Vec<ModuleRecord>, property_value: &Vec<u8>) -> (r: Result<
    ModuleMatch,
    ResolveError,
>)
    ensures
        ({
            let paths = module_paths(modules@);
            let fname = spec_target_filename(property_value@);
            match r {
                Ok(m) => {
                    &&& m.index < modules@.len()
                    &&& is_path_suffix(paths[m.index as int], fname)
                    &&& (forall|j: int| 0 <= j < m.index ==> !is_path_suffix(paths[j], fname))
                    &&& m.load_bias == modules@[m.index as int].load_bias
                },
                Err(e) => {
                    &&& e == ResolveError::ModuleNotFound
                    &&& (forall|j: int|
                        0 <= j < modules@.len() ==> !is_path_suffix(paths[j], fname))
                },
            }
        }),
{
    let scan = select_module(modules, property_value);
    match scan.matched {
        Some(index) => Ok(ModuleMatch { index, load_bias: modules[index].load_bias }),
        None => Err(ResolveError::ModuleNotFound),
    }
}

/// What the fallback strategy yields for a module file's bytes and load
/// bias: the first symbol named `name`, at the module's load bias plus the
/// symbol's recorded value offset.
pub open spec fn spec_resolve_in_image(b: Seq<u8>, load_bias: u64, name: Seq<u8>) -> Result<
    ResolvedSymbol,
    ResolveError,
> {
    match spec_parse(b) {
        None => Err(ResolveError::MalformedImage),
        Some(m) => match spec_find(m, name) {
            None => Err(ResolveError::SymbolNotFound),
            Some(e) => if load_bias + e.value_offset <= u64::MAX {
                Ok(ResolvedSymbol { absolute_address: (load_bias + e.value_offset) as u64 })
            } else {
                Err(ResolveError::MalformedImage)
            },
        },
    }
}

/// Parses `file_bytes` as an executable image, looks `symbol_name` up in its
/// symbol table, and computes the symbol's absolute address as the load bias
/// plus the symbol's value offset.
///
/// Fails with a malformed-image error exactly when the buffer does not
/// parse, and with a symbol-not-found error exactly when the image parses
/// but carries no symbol of that name. An address that would overflow the
/// address space is treated as malformed.
pub fn resolve_in_image(file_bytes: Vec<u8>, load_bias: u64, symbol_name: &Vec<u8>) -> (r: Result<
    ResolvedSymbol,
    ResolveError,
>)
    ensures
        r == spec_resolve_in_image(file_bytes@, load_bias, symbol_name@),
{
    let img = match BinaryImage::parse(file_bytes) {
        Ok(img) => img,
        Err(e) => {
            return Err(e);
        },
    };
    match img.find_symbol(symbol_name) {
        None => Err(ResolveError::SymbolNotFound),
        Some(entry) => {
            if entry.value_offset <= u64::MAX - load_bias {
                Ok(ResolvedSymbol { absolute_address: load_bias + entry.value_offset })
            } else {
                Err(ResolveError::MalformedImage)
            }
        },
    }
}

/// Concludes the fallback strategy once the matched module's backing file
/// has been read — or could not be: an absent read (open, status or read
/// failure) aborts the strategy as unreadable, anything read is resolved as
/// an image.
pub fn resolve_in_file(
    file_bytes: Option<Vec<u8>>,
    load_bias: u64,
    symbol_name: &Vec<u8>,
) -> (r: Result<ResolvedSymbol, ResolveError>)
    ensures
        file_bytes is None ==> r == Err::<ResolvedSymbol, ResolveError>(ResolveError::Unreadable),
        file_bytes matches Some(b) ==> r == spec_resolve_in_image(b@, load_bias, symbol_name@),
{
    match file_bytes {
        None => Err(ResolveError::Unreadable),
        Some(b) => resolve_in_image(b, load_bias, symbol_name),
    }
}

} // verus!
