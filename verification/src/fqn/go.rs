//! Module names of Go files: their directory.

use vstd::prelude::*;
use crate::fqn::{components, join_strings, opt_string_view, parent, spec_go_fqn, strip_root};

verus! {

pub fn fqn(root: &str, file: &str) -> (r: Option<String>)
    ensures
        opt_string_view(r) == spec_go_fqn(root@, file@),
{
    match strip_root(file, root) {
        Some(rel) => match parent(rel.as_str()) {
            Some(dir) => {
                let parts = components(dir.as_str());
                Some(join_strings(&parts, "/"))
            },
            None => None,
        },
        None => None,
    }
}


} // verus!
