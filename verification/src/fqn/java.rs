//! Module names of Java files.

use vstd::prelude::*;
use crate::fqn::{join_strings, maven_tail, opt_string_view, parts_of, spec_java_fqn, strings_view};
use crate::text::str_eq;

verus! {

/// The parts after the first Maven `src/main/java` run (see `maven_tail`).
pub fn trim_maven_prefix(parts: &Vec<String>) -> (r: Vec<String>)
    ensures
        strings_view(r@) == maven_tail(strings_view(parts@), 0),
{
    let ghost pv = strings_view(parts@);
    let n = parts.len();
    let bound: usize = if n >= 3 { n - 3 } else { 0 };
    let mut i: usize = 0;
    while i < bound
        invariant
            i <= bound,
            bound == (if n >= 3 { n - 3 } else { 0 }),
            n == parts@.len(),
            pv == strings_view(parts@),
            maven_tail(pv, 0) == maven_tail(pv, i as int),
        decreases bound - i,
    {
        if str_eq(parts[i].as_str(), "src") && str_eq(parts[i + 1].as_str(), "main") && str_eq(parts[i + 2].as_str(), "java") {
            let mut out: Vec<String> = Vec::new();
            let mut k: usize = i + 3;
            while k < n
                invariant
                    i + 3 <= k <= n == parts@.len(),
                    out@.len() == k - (i + 3),
                    forall|m: int| 0 <= m < out@.len() ==> #[trigger] out@[m]@ == parts@[i + 3 + m]@,
                decreases n - k,
            {
                out.push(parts[k].clone());
                k = k + 1;
            }
            assert(strings_view(out@) =~= pv.subrange(i + 3, pv.len() as int));
            return out;
        }
        i = i + 1;
    }
    let mut out: Vec<String> = Vec::new();
    let mut k: usize = 0;
    while k < n
        invariant
            k <= n == parts@.len(),
            out@.len() == k,
            forall|m: int| 0 <= m < k ==> #[trigger] out@[m]@ == parts@[m]@,
        decreases n - k,
    {
        out.push(parts[k].clone());
        k = k + 1;
    }
    assert(strings_view(out@) =~= pv);
    out
}

pub fn fqn(root: &str, file: &str) -> (r: Option<String>)
    ensures
        opt_string_view(r) == spec_java_fqn(root@, file@),
{
    match parts_of(root, file) {
        Some(parts) => {
            let t = trim_maven_prefix(&parts);
            Some(join_strings(&t, "."))
        },
        None => None,
    }
}


} // verus!
