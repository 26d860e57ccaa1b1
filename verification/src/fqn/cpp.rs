//! Module names of C++ files.

use vstd::prelude::*;
use crate::fqn::{join_strings, opt_string_view, parts_of, spec_cpp_fqn};

verus! {

pub fn fqn(root: &str, file: &str) -> (r: Option<String>)
    ensures
        opt_string_view(r) == spec_cpp_fqn(root@, file@),
{
    match parts_of(root, file) {
        Some(parts) => Some(join_strings(&parts, "::")),
        None => None,
    }
}


} // verus!
