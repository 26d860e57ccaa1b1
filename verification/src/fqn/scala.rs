//! Module names of Scala files: the same rule as java.

use vstd::prelude::*;
use crate::fqn::{opt_string_view, spec_java_fqn};

verus! {

pub fn fqn(root: &str, file: &str) -> (r: Option<String>)
    ensures
        opt_string_view(r) == spec_java_fqn(root@, file@),
{
    crate::fqn::java::fqn(root, file)
}

} // verus!
