//! The order in which the scopes of the dynamic linker are searched for an
//! export of the host library.
use vstd::prelude::*;

verus! {

/// A place where the dynamic linker looks a symbol up.
#[derive(Clone, Copy, PartialEq, Eq, Debug)]
pub enum Scope {
    /// The process-wide table, in load order.
    Default,
    /// The next definition after this module's own.
    Next,
    /// A handle to the host library itself, found by probing the loaded
    /// objects or opened by its conventional name.
    HostLibrary,
}

/// The two kinds of host exports this library needs.
#[derive(Clone, Copy, PartialEq, Eq, Debug)]
pub enum SymbolKind {
    /// An entry point this library defines itself and forwards to: the
    /// process-wide table would find this library's own definition.
    Shadowed,
    /// An export this library only calls (registration, path expansion).
    Helper,
}

pub open spec fn first_scope(kind: SymbolKind) -> Scope {
    match kind {
        SymbolKind::Shadowed => Scope::Next,
        SymbolKind::Helper => Scope::Default,
    }
}

/// The scopes to try, in order, for a symbol of `kind`: the one that skips or
/// takes the process table as the kind needs, then the host library's own
/// handle.
pub fn lookup_order(kind: SymbolKind) -> (r: Vec<Scope>)
    ensures
        r@ == seq![first_scope(kind), Scope::HostLibrary],
{
    let first = match kind {
        SymbolKind::Shadowed => Scope::Next,
        SymbolKind::Helper => Scope::Default,
    };
    let r: Vec<Scope> = vec![first, Scope::HostLibrary];
    assert(r@ =~= seq![first_scope(kind), Scope::HostLibrary]);
    r
}

} // verus!
