//! Module names of TSX files: the same rule as typescript.

use vstd::prelude::*;
use crate::fqn::{opt_string_view, spec_js_fqn};

verus! {

pub fn fqn(root: &str, file: &str) -> (r: Option<String>)
    ensures
        opt_string_view(r) == spec_js_fqn(root@, file@),
{
    crate::fqn::typescript::fqn(root, file)
}

} // verus!
