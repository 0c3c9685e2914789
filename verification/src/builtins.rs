//! The registry of builtin module names supplied by the platform.

use vstd::prelude::*;

verus! {

/// Whether a name is one of the platform's builtin module names.
pub uninterp spec fn is_builtin(name: Seq<char>) -> bool;

/// Relies on `node_builtins::BUILTINS`, the fixed registry of builtin module
/// names: membership is an exact string match, and no entry of the registry
/// contains a `/`.
#[verifier::external_body]
fn builtin_list_contains(name: &str) -> (r: bool)
    ensures
        r == is_builtin(name@),
        r ==> !name@.contains('/'),
{
    node_builtins::BUILTINS.iter().any(|builtin| *builtin == name)
}

/// Check if a string references a core module, such as "events". Only the
/// exact bare name matches; a string with a `/` anywhere in it (a trailing
/// slash, a sub-path, a `./` prefix) never does.
pub fn is_core_module(target: &str) -> (r: bool)
    ensures
        r == is_builtin(target@),
        target@.contains('/') ==> !r,
{
    builtin_list_contains(target)
}

} // verus!
