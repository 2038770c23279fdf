//! Why a plugin fails to load, and what the configuration-line hook returns
//! for a directive.
use vstd::prelude::*;

verus! {

/// Why a plugin could not be loaded or registered. Each variant carries the
/// dynamic linker's own message.
#[derive(Debug)]
pub enum PluginError {
    /// An export of the host that registration needs could not be found.
    SymbolNotFound(Vec<u8>),
    /// The path could not be opened as a shared object.
    LibraryLoadFailure(Vec<u8>),
    /// The shared object opened but does not export the command function.
    PluginSymbolMissing(Vec<u8>),
}

/// Returned by the configuration-line hook for a directive whose plugin was
/// registered.
pub const DIRECTIVE_LOADED: isize = 0;

/// Returned by the configuration-line hook for a directive whose plugin could
/// not be loaded.
pub const DIRECTIVE_FAILED: isize = 1;

/// The configuration-line hook's result for a directive, given how loading
/// its plugin went: 0 on success, 1 on any failure.
pub fn directive_status(outcome: &Result<(), PluginError>) -> (r: isize)
    ensures
        r == (if outcome is Ok {
            DIRECTIVE_LOADED
        } else {
            DIRECTIVE_FAILED
        }),
        r == 0 <==> outcome is Ok,
{
    match outcome {
        Ok(()) => DIRECTIVE_LOADED,
        Err(_) => DIRECTIVE_FAILED,
    }
}

} // verus!
