//! Module names of JavaScript files.

use vstd::prelude::*;
use crate::fqn::{join_strings, opt_string_view, parts_of, pop_if_named, spec_js_fqn};

verus! {

pub fn fqn(root: &str, file: &str) -> (r: Option<String>)
    ensures
        opt_string_view(r) == spec_js_fqn(root@, file@),
{
    match parts_of(root, file) {
        Some(mut parts) => {
            let names: [&str; 1] = ["index"];
            pop_if_named(&mut parts, &names);
            assert(names@.map_values(|n: &str| n@) =~= seq!["index"@]);
            Some(join_strings(&parts, "/"))
        },
        None => None,
    }
}


} // verus!
