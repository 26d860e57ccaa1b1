//! Regular expressions, compiled once and matched many times.

use vstd::prelude::*;
use crate::text::has_infix;

verus! {

#[verifier::external_type_specification]
#[verifier::external_body]
pub struct ExRegex(regex::Regex);

/// Whether `regex::Regex::new` accepts the pattern.
pub uninterp spec fn regex_compiles(pattern: Seq<char>) -> bool;

/// Whether the regex compiled from `pattern` matches somewhere in `hay`.
pub uninterp spec fn regex_matches(pattern: Seq<char>, hay: Seq<char>) -> bool;

/// The characters that have a meaning in a regex (`regex_syntax::is_meta_character`).
pub open spec fn is_regex_meta(c: char) -> bool {
    c == '\\' || c == '.' || c == '+' || c == '*' || c == '?' || c == '(' || c == ')' || c == '|' || c == '['
        || c == ']' || c == '{' || c == '}' || c == '^' || c == '$' || c == '#' || c == '&' || c == '-' || c == '~'
}

/// The pattern `regex::escape` makes of a literal: a backslash before each
/// meta character.
pub open spec fn regex_escaped(lit: Seq<char>) -> Seq<char>
    decreases lit.len(),
{
    if lit.len() == 0 {
        Seq::empty()
    } else {
        regex_escaped(lit.drop_last()) + if is_regex_meta(lit.last()) {
            seq!['\\', lit.last()]
        } else {
            seq![lit.last()]
        }
    }
}

/// Calls `regex::Regex::new`: `Some` exactly when the pattern compiles.
#[verifier::external_body]
fn regex_new(pattern: &str) -> (r: Option<regex::Regex>)
    ensures
        r.is_some() == regex_compiles(pattern@),
{
    regex::Regex::new(pattern).ok()
}

/// The pattern that matches `lit` literally, as `regex::escape` gives it.
pub(crate) fn regex_escape(lit: &str) -> (r: String)
    ensures
        r@ == regex_escaped(lit@),
{
    let cs = crate::text::chars_of(lit);
    let mut out = String::new();
    let mut i: usize = 0;
    while i < cs.len()
        invariant
            i <= cs@.len(),
            cs@ == lit@,
            out@ == regex_escaped(cs@.subrange(0, i as int)),
        decreases cs.len() - i,
    {
        let c = cs[i];
        let meta = c == '\\' || c == '.' || c == '+' || c == '*' || c == '?' || c == '(' || c == ')' || c == '|'
            || c == '[' || c == ']' || c == '{' || c == '}' || c == '^' || c == '$' || c == '#' || c == '&' || c == '-'
            || c == '~';
        if meta {
            out.push('\\');
        }
        out.push(c);
        assert(cs@.subrange(0, i + 1).drop_last() =~= cs@.subrange(0, i as int));
        assert(out@ =~= regex_escaped(cs@.subrange(0, i + 1)));
        i = i + 1;
    }
    assert(cs@.subrange(0, cs@.len() as int) =~= cs@);
    out
}

/// A regex together with the pattern it was compiled from.
pub struct CompiledRegex {
    re: regex::Regex,
    src: Ghost<Seq<char>>,
}

/// Calls `regex::Regex::is_match` on the compiled pattern: whether it
/// matches anywhere in `hay`. An escaped literal matches exactly where the
/// literal occurs (the documented purpose of `regex::escape`).
#[verifier::external_body]
fn regex_is_match(c: &CompiledRegex, hay: &str) -> (b: bool)
    ensures
        b == regex_matches(c.source(), hay@),
        forall|lit: Seq<char>| c.source() == regex_escaped(lit) ==> (b == has_infix(hay@, lit)),
{
    c.re.is_match(hay)
}

impl CompiledRegex {
    /// The pattern this regex was compiled from.
    pub closed spec fn source(&self) -> Seq<char> {
        self.src@
    }

    /// Compiles `pattern`; `None` when the regex crate rejects it.
    pub fn new(pattern: &str) -> (r: Option<CompiledRegex>)
        ensures
            r.is_some() == regex_compiles(pattern@),
            r matches Some(c) ==> c.source() == pattern@,
    {
        match regex_new(pattern) {
            Some(re) => Some(CompiledRegex { re, src: Ghost(pattern@) }),
            None => None,
        }
    }

    /// Whether the regex matches somewhere in `hay`.
    pub fn is_match(&self, hay: &str) -> (b: bool)
        ensures
            b == regex_matches(self.source(), hay@),
            forall|lit: Seq<char>| self.source() == regex_escaped(lit) ==> (b == has_infix(hay@, lit)),
    {
        regex_is_match(self, hay)
    }
}

} // verus!
