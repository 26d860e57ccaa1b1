//! Character-level helpers shared by the lexer, the parsers and the string
//! builders of the library.

use vstd::prelude::*;

verus! {

/// `String::push` appends one character.
pub assume_specification[ String::push ](s: &mut String, ch: char)
    ensures
        final(s)@ == old(s)@.push(ch),
;

/// The characters of `s`, in order.
pub fn chars_of(s: &str) -> (v: Vec<char>)
    ensures
        v@ == s@,
{
    let n = s.unicode_len();
    let mut v: Vec<char> = Vec::new();
    let mut i: usize = 0;
    while i < n
        invariant
            n == s@.len(),
            i <= n,
            v@ == s@.subrange(0, i as int),
        decreases n - i,
    {
        let c = s.get_char(i);
        v.push(c);
        i += 1;
        assert(v@ =~= s@.subrange(0, i as int));
    }
    assert(v@ =~= s@);
    v
}

/// Whether `a` holds exactly the characters of `b`.
pub fn chars_equal(a: &[char], b: &[char]) -> (r: bool)
    ensures
        r == (a@ == b@),
{
    if a.len() != b.len() {
        return false;
    }
    let mut i: usize = 0;
    while i < a.len()
        invariant
            a@.len() == b@.len(),
            i <= a@.len(),
            forall|j: int| 0 <= j < i ==> a@[j] == b@[j],
        decreases a@.len() - i,
    {
        if a[i] != b[i] {
            return false;
        }
        i += 1;
    }
    assert(a@ =~= b@);
    true
}

/// Whether two strings hold the same characters.
pub fn str_eq(a: &str, b: &str) -> (r: bool)
    ensures
        r == (a@ == b@),
{
    let x = chars_of(a);
    let y = chars_of(b);
    chars_equal(x.as_slice(), y.as_slice())
}


/// A `String` holding the characters of `v`.
pub fn string_from_chars(v: &[char]) -> (s: String)
    ensures
        s@ == v@,
{
    let mut s = String::new();
    let mut i: usize = 0;
    while i < v.len()
        invariant
            i <= v@.len(),
            s@ == v@.subrange(0, i as int),
        decreases v@.len() - i,
    {
        s.push(v[i]);
        i += 1;
        assert(s@ =~= v@.subrange(0, i as int));
    }
    assert(v@.subrange(0, v@.len() as int) =~= v@);
    s
}


/// The decimal digit character for `d < 10`.
pub open spec fn digit_char(d: nat) -> char {
    if d == 0 { '0' } else if d == 1 { '1' } else if d == 2 { '2' } else if d == 3 { '3' }
    else if d == 4 { '4' } else if d == 5 { '5' } else if d == 6 { '6' } else if d == 7 { '7' }
    else if d == 8 { '8' } else { '9' }
}

/// The decimal rendering of `n`, without leading zeros.
pub open spec fn spec_decimal(n: nat) -> Seq<char>
    decreases n,
{
    if n < 10 {
        seq![digit_char(n)]
    } else {
        spec_decimal(n / 10).push(digit_char(n % 10))
    }
}

fn digit(d: u64) -> (c: char)
    requires
        d < 10,
    ensures
        c == digit_char(d as nat),
{
    if d == 0 { '0' } else if d == 1 { '1' } else if d == 2 { '2' } else if d == 3 { '3' }
    else if d == 4 { '4' } else if d == 5 { '5' } else if d == 6 { '6' } else if d == 7 { '7' }
    else if d == 8 { '8' } else { '9' }
}

/// Appends the decimal rendering of `n` to `s`.
pub fn push_decimal(s: &mut String, n: u64)
    ensures
        final(s)@ == old(s)@ + spec_decimal(n as nat),
    decreases n,
{
    if n >= 10 {
        push_decimal(s, n / 10);
    }
    let c = digit(n % 10);
    s.push(c);
    proof {
        if n >= 10 {
            assert(old(s)@ + spec_decimal(n as nat) =~= old(s)@ + spec_decimal((n / 10) as nat) + seq![c]);
        } else {
            assert(old(s)@ + spec_decimal(n as nat) =~= old(s)@ + seq![c]);
        }
    }
}

/// The decimal rendering of `n` as a new `String`.
pub fn decimal_string(n: u64) -> (s: String)
    ensures
        s@ == spec_decimal(n as nat),
{
    let mut s = String::new();
    push_decimal(&mut s, n);
    assert(s@ =~= spec_decimal(n as nat));
    s
}

/// Appends the characters of `v` to `s`.
pub fn push_chars(s: &mut String, v: &[char])
    ensures
        final(s)@ == old(s)@ + v@,
{
    let mut i: usize = 0;
    while i < v.len()
        invariant
            i <= v@.len(),
            s@ == old(s)@ + v@.subrange(0, i as int),
        decreases v@.len() - i,
    {
        s.push(v[i]);
        i += 1;
        assert(s@ =~= old(s)@ + v@.subrange(0, i as int));
    }
    assert(v@.subrange(0, v@.len() as int) =~= v@);
}


/// The decimal rendering of a signed integer.
pub open spec fn spec_i64_text(i: i64) -> Seq<char> {
    if i < 0 {
        seq!['-'] + spec_decimal((-(i as int)) as nat)
    } else {
        spec_decimal(i as nat)
    }
}

/// Appends the decimal rendering of `i` to `s`.
pub fn push_i64(s: &mut String, i: i64)
    ensures
        final(s)@ == old(s)@ + spec_i64_text(i),
{
    if i < 0 {
        s.push('-');
        let m: u64 = ((-(i + 1)) as u64) + 1;
        push_decimal(s, m);
        assert(final(s)@ =~= old(s)@ + spec_i64_text(i));
    } else {
        push_decimal(s, i as u64);
    }
}

/// How one character appears inside a Rust-`Debug`-quoted string.
pub open spec fn debug_escape(c: char) -> Seq<char> {
    if c == '"' {
        seq!['\\', '"']
    } else if c == '\\' {
        seq!['\\', '\\']
    } else if c == '\n' {
        seq!['\\', 'n']
    } else if c == '\t' {
        seq!['\\', 't']
    } else if c == '\r' {
        seq!['\\', 'r']
    } else {
        seq![c]
    }
}

pub open spec fn debug_escaped(v: Seq<char>) -> Seq<char>
    decreases v.len(),
{
    if v.len() == 0 {
        Seq::empty()
    } else {
        debug_escaped(v.drop_last()) + debug_escape(v.last())
    }
}

/// Appends `v` between double quotes, escaping quotes, backslashes and the
/// common control characters.
pub fn push_debug_str(s: &mut String, v: &str)
    ensures
        final(s)@ == old(s)@ + seq!['"'] + debug_escaped(v@) + seq!['"'],
{
    let c = chars_of(v);
    s.push('"');
    let mut i: usize = 0;
    while i < c.len()
        invariant
            c@ == v@,
            i <= c@.len(),
            s@ == old(s)@ + seq!['"'] + debug_escaped(c@.subrange(0, i as int)),
        decreases c@.len() - i,
    {
        let ch = c[i];
        let ghost before = s@;
        if ch == '"' {
            s.push('\\');
            s.push('"');
        } else if ch == '\\' {
            s.push('\\');
            s.push('\\');
        } else if ch == '\n' {
            s.push('\\');
            s.push('n');
        } else if ch == '\t' {
            s.push('\\');
            s.push('t');
        } else if ch == '\r' {
            s.push('\\');
            s.push('r');
        } else {
            s.push(ch);
        }
        proof {
            assert(c@.subrange(0, i + 1).drop_last() =~= c@.subrange(0, i as int));
            assert(s@ =~= before + debug_escape(ch));
        }
        i += 1;
    }
    assert(c@.subrange(0, c@.len() as int) =~= c@);
    s.push('"');
}


/// The outcome of a three-way comparison.
#[derive(Debug, Clone, Copy, PartialEq, Eq, Structural)]
pub enum Compared {
    Less,
    Equal,
    Greater,
}

impl Compared {
    pub open spec fn flipped(self) -> Compared {
        match self {
            Compared::Less => Compared::Greater,
            Compared::Equal => Compared::Equal,
            Compared::Greater => Compared::Less,
        }
    }

    /// The opposite outcome (`Less` and `Greater` swap).
    pub fn reverse(self) -> (r: Compared)
        ensures
            r == self.flipped(),
    {
        match self {
            Compared::Less => Compared::Greater,
            Compared::Equal => Compared::Equal,
            Compared::Greater => Compared::Less,
        }
    }
}

/// Lexicographic order of character sequences by code point (the order of
/// `str` comparison, since UTF-8 preserves code-point order).
pub open spec fn chars_compared(a: Seq<char>, b: Seq<char>) -> Compared
    decreases a.len(),
{
    if a.len() == 0 {
        if b.len() == 0 {
            Compared::Equal
        } else {
            Compared::Less
        }
    } else if b.len() == 0 {
        Compared::Greater
    } else if (a[0] as u32) < (b[0] as u32) {
        Compared::Less
    } else if (a[0] as u32) > (b[0] as u32) {
        Compared::Greater
    } else {
        chars_compared(a.drop_first(), b.drop_first())
    }
}

proof fn chars_compared_suffix(a: Seq<char>, b: Seq<char>, i: int)
    requires
        0 <= i <= a.len(),
        i <= b.len(),
        forall|k: int| 0 <= k < i ==> (a[k] as u32) == (b[k] as u32),
    ensures
        chars_compared(a, b) == chars_compared(a.subrange(i, a.len() as int), b.subrange(i, b.len() as int)),
    decreases i,
{
    if i == 0 {
        assert(a.subrange(0, a.len() as int) =~= a);
        assert(b.subrange(0, b.len() as int) =~= b);
    } else {
        assert((a[0] as u32) == (b[0] as u32));
        chars_compared_suffix(a.drop_first(), b.drop_first(), i - 1);
        assert(a.drop_first().subrange(i - 1, a.drop_first().len() as int) =~= a.subrange(i, a.len() as int));
        assert(b.drop_first().subrange(i - 1, b.drop_first().len() as int) =~= b.subrange(i, b.len() as int));
    }
}

/// Three-way comparison of two strings.
pub fn compare_strs(a: &str, b: &str) -> (r: Compared)
    ensures
        r == chars_compared(a@, b@),
{
    let x = chars_of(a);
    let y = chars_of(b);
    let mut i: usize = 0;
    while i < x.len() && i < y.len()
        invariant
            i <= x.len(),
            i <= y.len(),
            x@ == a@,
            y@ == b@,
            forall|k: int| 0 <= k < i ==> (x@[k] as u32) == (y@[k] as u32),
        decreases x.len() - i,
    {
        let cx = x[i] as u32;
        let cy = y[i] as u32;
        if cx < cy {
            proof {
                chars_compared_suffix(x@, y@, i as int);
            }
            return Compared::Less;
        }
        if cx > cy {
            proof {
                chars_compared_suffix(x@, y@, i as int);
            }
            return Compared::Greater;
        }
        i = i + 1;
    }
    proof {
        chars_compared_suffix(x@, y@, i as int);
    }
    if i < x.len() {
        Compared::Greater
    } else if i < y.len() {
        Compared::Less
    } else {
        Compared::Equal
    }
}

/// `h` begins with `n`.
pub open spec fn has_prefix(h: Seq<char>, n: Seq<char>) -> bool {
    n.len() <= h.len() && h.subrange(0, n.len() as int) == n
}

/// `h` ends with `n`.
pub open spec fn has_suffix(h: Seq<char>, n: Seq<char>) -> bool {
    n.len() <= h.len() && h.subrange(h.len() - n.len(), h.len() as int) == n
}

/// `n` occurs in `h` at position `i`.
pub open spec fn occurs_at(h: Seq<char>, n: Seq<char>, i: int) -> bool {
    0 <= i && i + n.len() <= h.len() && h.subrange(i, i + n.len()) == n
}

/// `n` occurs somewhere in `h`.
pub open spec fn has_infix(h: Seq<char>, n: Seq<char>) -> bool {
    exists|i: int| occurs_at(h, n, i)
}

fn matches_at(h: &Vec<char>, n: &Vec<char>, i: usize) -> (r: bool)
    requires
        i + n@.len() <= h@.len(),
    ensures
        r == (h@.subrange(i as int, i + n@.len()) == n@),
{
    let hl = h.len();
    let mut j: usize = 0;
    while j < n.len()
        invariant
            j <= n.len(),
            hl == h@.len(),
            i + n@.len() <= h@.len(),
            h@.subrange(i as int, i + j) == n@.subrange(0, j as int),
        decreases n.len() - j,
    {
        if h[i + j] != n[j] {
            assert(h@.subrange(i as int, i + n@.len())[j as int] != n@[j as int]);
            return false;
        }
        assert(h@.subrange(i as int, i + j + 1) =~= h@.subrange(i as int, i + j).push(h@[i + j]));
        assert(n@.subrange(0, j + 1) =~= n@.subrange(0, j as int).push(n@[j as int]));
        j = j + 1;
    }
    assert(n@.subrange(0, n@.len() as int) =~= n@);
    true
}

/// Whether `h` begins with `n`.
pub fn str_starts_with(h: &str, n: &str) -> (r: bool)
    ensures
        r == has_prefix(h@, n@),
{
    let x = chars_of(h);
    let y = chars_of(n);
    if y.len() > x.len() {
        return false;
    }
    matches_at(&x, &y, 0)
}

/// Whether `h` ends with `n`.
pub fn str_ends_with(h: &str, n: &str) -> (r: bool)
    ensures
        r == has_suffix(h@, n@),
{
    let x = chars_of(h);
    let y = chars_of(n);
    if y.len() > x.len() {
        return false;
    }
    matches_at(&x, &y, x.len() - y.len())
}

/// Whether `n` occurs in `h`.
pub fn str_contains(h: &str, n: &str) -> (r: bool)
    ensures
        r == has_infix(h@, n@),
{
    let x = chars_of(h);
    let y = chars_of(n);
    if y.len() > x.len() {
        assert forall|i: int| !occurs_at(h@, n@, i) by {}
        return false;
    }
    let last = x.len() - y.len();
    let mut i: usize = 0;
    while i <= last
        invariant
            i <= last,
            last == x@.len() - y@.len(),
            x@ == h@,
            y@ == n@,
            forall|k: int| 0 <= k < i ==> !occurs_at(h@, n@, k),
        ensures
            forall|k: int| 0 <= k <= last ==> !occurs_at(h@, n@, k),
        decreases last - i,
    {
        if matches_at(&x, &y, i) {
            assert(occurs_at(h@, n@, i as int));
            return true;
        }
        if i == last {
            break;
        }
        i = i + 1;
    }
    assert forall|k: int| !occurs_at(h@, n@, k) by {
        if 0 <= k <= last {
        }
    }
    false
}

/// ASCII lower-casing of one character; other characters are unchanged.
pub open spec fn ascii_lower(c: char) -> char {
    if 'A' <= c && c <= 'Z' {
        ((c as u32) + 32) as char
    } else {
        c
    }
}

/// Equality up to ASCII case.
pub open spec fn eq_ignoring_ascii_case(a: Seq<char>, b: Seq<char>) -> bool {
    a.len() == b.len() && forall|i: int| 0 <= i < a.len() ==> ascii_lower(#[trigger] a[i]) == ascii_lower(b[i])
}

fn lower_char(c: char) -> (r: char)
    ensures
        r == ascii_lower(c),
{
    if 'A' <= c && c <= 'Z' {
        let v: u32 = (c as u32) + 32;
        assert(('a' as u32) <= v <= ('z' as u32));
        let b: u8 = v as u8;
        b as char
    } else {
        c
    }
}

/// Whether two strings are equal up to ASCII case.
pub fn str_eq_ignore_ascii_case(a: &str, b: &str) -> (r: bool)
    ensures
        r == eq_ignoring_ascii_case(a@, b@),
{
    let x = chars_of(a);
    let y = chars_of(b);
    if x.len() != y.len() {
        return false;
    }
    let mut i: usize = 0;
    while i < x.len()
        invariant
            i <= x.len(),
            x@.len() == y@.len(),
            x@ == a@,
            y@ == b@,
            forall|k: int| 0 <= k < i ==> ascii_lower(#[trigger] x@[k]) == ascii_lower(y@[k]),
        decreases x.len() - i,
    {
        if lower_char(x[i]) != lower_char(y[i]) {
            return false;
        }
        i = i + 1;
    }
    true
}


/// The last position at or before `i` where `n` occurs in `h`, or -1.
pub open spec fn last_occurrence(h: Seq<char>, n: Seq<char>, i: int) -> int
    decreases i + 1,
{
    if i < 0 {
        -1
    } else if occurs_at(h, n, i) {
        i
    } else {
        last_occurrence(h, n, i - 1)
    }
}

/// What follows the last occurrence of `sep` in `s`; all of `s` when `sep`
/// does not occur (`s.rsplit(sep).next()`).
pub open spec fn after_last(s: Seq<char>, sep: Seq<char>) -> Seq<char> {
    let k = last_occurrence(s, sep, s.len() - sep.len());
    if k >= 0 {
        s.subrange(k + sep.len(), s.len() as int)
    } else {
        s
    }
}

proof fn last_occurrence_bounds(h: Seq<char>, n: Seq<char>, i: int)
    ensures
        last_occurrence(h, n, i) == -1 || (0 <= last_occurrence(h, n, i) <= i && occurs_at(h, n, last_occurrence(h, n, i))),
    decreases i + 1,
{
    if i >= 0 && !occurs_at(h, n, i) {
        last_occurrence_bounds(h, n, i - 1);
    }
}

/// Position of the last occurrence of `n` in `h`, if any.
pub fn rfind_chars(h: &Vec<char>, n: &Vec<char>) -> (r: Option<usize>)
    ensures
        match r {
            Some(k) => k as int == last_occurrence(h@, n@, h@.len() - n@.len()) && k + n@.len() <= h@.len(),
            None => last_occurrence(h@, n@, h@.len() - n@.len()) == -1,
        },
{
    if n.len() > h.len() {
        assert(last_occurrence(h@, n@, h@.len() - n@.len()) == -1);
        return None;
    }
    let mut i: usize = h.len() - n.len();
    loop
        invariant
            i + n@.len() <= h@.len(),
            last_occurrence(h@, n@, h@.len() - n@.len()) == last_occurrence(h@, n@, i as int),
        decreases i,
    {
        if matches_at(h, n, i) {
            assert(occurs_at(h@, n@, i as int));
            return Some(i);
        }
        if i == 0 {
            assert(last_occurrence(h@, n@, -1) == -1);
            return None;
        }
        i = i - 1;
    }
}

/// What follows the last occurrence of `sep` in `s` (all of `s` if none).
pub fn str_after_last(s: &str, sep: &str) -> (r: String)
    ensures
        r@ == after_last(s@, sep@),
{
    let x = chars_of(s);
    let y = chars_of(sep);
    let xl = x.len();
    let yl = y.len();
    match rfind_chars(&x, &y) {
        Some(k) => {
            let mut out = String::new();
            let mut i: usize = k + yl;
            let start: usize = i;
            while i < x.len()
                invariant
                    start <= i <= x@.len(),
                    out@ == x@.subrange(start as int, i as int),
                decreases x.len() - i,
            {
                out.push(x[i]);
                i = i + 1;
                assert(out@ =~= x@.subrange(start as int, i as int));
            }
            out
        },
        None => {
            let out = string_from_chars(x.as_slice());
            out
        },
    }
}


/// Unicode `White_Space`, as `char::is_whitespace` defines it.
pub open spec fn is_unicode_ws(c: char) -> bool {
    let u = c as u32;
    (0x9 <= u && u <= 0xD) || u == 0x20 || u == 0x85 || u == 0xA0 || u == 0x1680 || (0x2000 <= u && u <= 0x200A)
        || u == 0x2028 || u == 0x2029 || u == 0x202F || u == 0x205F || u == 0x3000
}

pub fn char_is_whitespace(c: char) -> (b: bool)
    ensures
        b == is_unicode_ws(c),
{
    let u = c as u32;
    (0x9 <= u && u <= 0xD) || u == 0x20 || u == 0x85 || u == 0xA0 || u == 0x1680 || (0x2000 <= u && u <= 0x200A)
        || u == 0x2028 || u == 0x2029 || u == 0x202F || u == 0x205F || u == 0x3000
}

/// Index of the first character at or after `i` that is not whitespace.
pub open spec fn skip_ws(s: Seq<char>, i: int) -> int
    decreases s.len() - i,
{
    if i < 0 || i >= s.len() {
        s.len() as int
    } else if is_unicode_ws(s[i]) {
        skip_ws(s, i + 1)
    } else {
        i
    }
}

/// One past the last character before `j` that is not whitespace.
pub open spec fn skip_ws_back(s: Seq<char>, j: int) -> int
    decreases j,
{
    if j <= 0 {
        0
    } else if is_unicode_ws(s[j - 1]) {
        skip_ws_back(s, j - 1)
    } else {
        j
    }
}

/// `s` without leading whitespace (`str::trim_start`).
pub open spec fn trim_start(s: Seq<char>) -> Seq<char> {
    s.subrange(skip_ws(s, 0), s.len() as int)
}

/// `s` without leading and trailing whitespace (`str::trim`).
pub open spec fn trim(s: Seq<char>) -> Seq<char> {
    let t = trim_start(s);
    t.subrange(0, skip_ws_back(t, t.len() as int))
}

proof fn skip_ws_range(s: Seq<char>, i: int)
    requires
        0 <= i <= s.len(),
    ensures
        i <= skip_ws(s, i) <= s.len(),
    decreases s.len() - i,
{
    if i < s.len() && is_unicode_ws(s[i]) {
        skip_ws_range(s, i + 1);
    }
}

proof fn skip_ws_back_range(s: Seq<char>, j: int)
    requires
        0 <= j <= s.len(),
    ensures
        0 <= skip_ws_back(s, j) <= j,
    decreases j,
{
    if j > 0 && is_unicode_ws(s[j - 1]) {
        skip_ws_back_range(s, j - 1);
    }
}

/// The characters of `v` from `a` to `b`.
pub fn chars_slice(v: &Vec<char>, a: usize, b: usize) -> (r: Vec<char>)
    requires
        a <= b <= v@.len(),
    ensures
        r@ == v@.subrange(a as int, b as int),
{
    let mut r: Vec<char> = Vec::new();
    let mut i: usize = a;
    while i < b
        invariant
            a <= i <= b <= v@.len(),
            r@ == v@.subrange(a as int, i as int),
        decreases b - i,
    {
        r.push(v[i]);
        i = i + 1;
        assert(r@ =~= v@.subrange(a as int, i as int));
    }
    r
}

/// `v` without leading whitespace.
pub fn trim_start_chars(v: &Vec<char>) -> (r: Vec<char>)
    ensures
        r@ == trim_start(v@),
{
    let mut i: usize = 0;
    while i < v.len() && char_is_whitespace(v[i])
        invariant
            i <= v@.len(),
            skip_ws(v@, 0) == skip_ws(v@, i as int),
        decreases v.len() - i,
    {
        i = i + 1;
    }
    chars_slice(v, i, v.len())
}

/// `v` without leading and trailing whitespace.
pub fn trim_chars(v: &Vec<char>) -> (r: Vec<char>)
    ensures
        r@ == trim(v@),
{
    let t = trim_start_chars(v);
    let mut j: usize = t.len();
    while j > 0 && char_is_whitespace(t[j - 1])
        invariant
            j <= t@.len(),
            skip_ws_back(t@, t@.len() as int) == skip_ws_back(t@, j as int),
        decreases j,
    {
        j = j - 1;
    }
    chars_slice(&t, 0, j)
}

/// The pieces of `s` between occurrences of `sep` (`str::split` on one
/// character): pieces completed so far and the piece being read.
pub open spec fn split_state(s: Seq<char>, sep: char) -> (Seq<Seq<char>>, Seq<char>)
    decreases s.len(),
{
    if s.len() == 0 {
        (Seq::empty(), Seq::empty())
    } else {
        let (done, cur) = split_state(s.drop_last(), sep);
        if s.last() == sep {
            (done.push(cur), Seq::empty())
        } else {
            (done, cur.push(s.last()))
        }
    }
}

/// `s.split(sep)`: always at least one piece.
pub open spec fn split_on(s: Seq<char>, sep: char) -> Seq<Seq<char>> {
    let (done, cur) = split_state(s, sep);
    done.push(cur)
}

/// The pieces of `s` separated by `sep`.
pub fn split_chars(s: &Vec<char>, sep: char) -> (r: Vec<Vec<char>>)
    ensures
        r@.map_values(|p: Vec<char>| p@) == split_on(s@, sep),
{
    let mut out: Vec<Vec<char>> = Vec::new();
    let mut cur: Vec<char> = Vec::new();
    let mut i: usize = 0;
    assert(s@.subrange(0, 0) =~= Seq::<char>::empty());
    assert(out@.map_values(|p: Vec<char>| p@) =~= Seq::<Seq<char>>::empty());
    while i < s.len()
        invariant
            i <= s@.len(),
            split_state(s@.subrange(0, i as int), sep) == (out@.map_values(|p: Vec<char>| p@), cur@),
        decreases s.len() - i,
    {
        let ghost sub = s@.subrange(0, (i + 1) as int);
        assert(sub.drop_last() =~= s@.subrange(0, i as int));
        if s[i] == sep {
            let ghost pre = out@.map_values(|p: Vec<char>| p@);
            let ghost cv = cur@;
            out.push(cur);
            cur = Vec::new();
            assert(out@.map_values(|p: Vec<char>| p@) =~= pre.push(cv));
            assert(cur@ =~= Seq::<char>::empty());
        } else {
            cur.push(s[i]);
        }
        i = i + 1;
    }
    assert(s@.subrange(0, s@.len() as int) =~= s@);
    let ghost pre = out@.map_values(|p: Vec<char>| p@);
    let ghost cv = cur@;
    out.push(cur);
    assert(out@.map_values(|p: Vec<char>| p@) =~= pre.push(cv));
    out
}

pub open spec fn is_ascii_digit(c: char) -> bool {
    '0' <= c && c <= '9'
}

/// The value of a run of decimal digits.
pub open spec fn decimal_value(s: Seq<char>) -> int
    decreases s.len(),
{
    if s.len() == 0 {
        0
    } else {
        decimal_value(s.drop_last()) * 10 + ((s.last() as u32) - ('0' as u32))
    }
}

pub open spec fn all_digits(s: Seq<char>) -> bool {
    s.len() > 0 && forall|i: int| 0 <= i < s.len() ==> is_ascii_digit(#[trigger] s[i])
}

/// `s.parse::<i32>()`: an optional sign, then one or more ASCII digits; the
/// value must fit in an `i32`.
pub open spec fn parse_i32(s: Seq<char>) -> Option<i32> {
    let neg = s.len() > 0 && s[0] == '-';
    let signed = s.len() > 0 && (s[0] == '-' || s[0] == '+');
    let body = if signed { s.subrange(1, s.len() as int) } else { s };
    if !all_digits(body) {
        None
    } else {
        let v = if neg { -decimal_value(body) } else { decimal_value(body) };
        if i32::MIN <= v <= i32::MAX {
            Some(v as i32)
        } else {
            None
        }
    }
}

proof fn decimal_value_nonneg(s: Seq<char>)
    requires
        forall|i: int| 0 <= i < s.len() ==> is_ascii_digit(#[trigger] s[i]),
    ensures
        decimal_value(s) >= 0,
        s.len() > 0 ==> decimal_value(s) >= decimal_value(s.drop_last()) * 10,
    decreases s.len(),
{
    if s.len() > 0 {
        assert forall|i: int| 0 <= i < s.drop_last().len() implies is_ascii_digit(#[trigger] s.drop_last()[i]) by {
            assert(s.drop_last()[i] == s[i]);
        }
        decimal_value_nonneg(s.drop_last());
    }
}

/// Parses a decimal `i32` the way `str::parse::<i32>` does.
pub fn parse_i32_chars(s: &Vec<char>) -> (r: Option<i32>)
    ensures
        r == parse_i32(s@),
{
    let n = s.len();
    let neg = n > 0 && s[0] == '-';
    let signed = n > 0 && (s[0] == '-' || s[0] == '+');
    let start: usize = if signed { 1 } else { 0 };
    let ghost body = if signed { s@.subrange(1, s@.len() as int) } else { s@ };
    if start >= n {
        assert(!all_digits(body));
        return None;
    }
    let mut v: i64 = 0;
    let mut i: usize = start;
    assert(body.subrange(0, 0) =~= Seq::<char>::empty());
    while i < n
        invariant
            start <= i <= n == s@.len(),
            start == (if signed { 1usize } else { 0usize }),
            signed == (s@.len() > 0 && (s@[0] == '-' || s@[0] == '+')),
            neg == (s@.len() > 0 && s@[0] == '-'),
            body == s@.subrange(start as int, n as int),
            body == (if signed { s@.subrange(1, s@.len() as int) } else { s@ }),
            forall|k: int| 0 <= k < i - start ==> is_ascii_digit(#[trigger] body[k]),
            v == decimal_value(body.subrange(0, i - start)),
            0 <= v <= 0x80000000,
        decreases n - i,
    {
        let c = s[i];
        if !('0' <= c && c <= '9') {
            assert(!is_ascii_digit(body[i - start]));
            return None;
        }
        let d: i64 = ((c as u32) - ('0' as u32)) as i64;
        let ghost sub = body.subrange(0, i - start + 1);
        assert(sub.drop_last() =~= body.subrange(0, i - start));
        assert(sub.last() == c);
        let nv = v * 10 + d;
        if nv > 0x80000000 {
            proof {
                assert(decimal_value(sub) > 0x80000000);
                assert forall|j: int| 0 <= j < sub.len() implies is_ascii_digit(#[trigger] sub[j]) by {
                    assert(sub[j] == body[j]);
                }
                if all_digits(body) {
                    decimal_value_grows(body, i - start + 1);
                    assert(decimal_value(body) > 0x80000000);
                    assert(parse_i32(s@) is None);
                }
            }
            return None;
        }
        v = nv;
        i = i + 1;
    }
    assert(body.subrange(0, body.len() as int) =~= body);
    if neg {
        let r: i64 = -v;
        if r < -2147483648 {
            return None;
        }
        Some(r as i32)
    } else {
        if v > 2147483647 {
            return None;
        }
        Some(v as i32)
    }
}

/// `s.parse::<u64>()`: an optional `+`, then one or more ASCII digits; the
/// value must fit in a `u64`.
pub open spec fn parse_u64(s: Seq<char>) -> Option<u64> {
    let body = if s.len() > 0 && s[0] == '+' { s.subrange(1, s.len() as int) } else { s };
    if !all_digits(body) || decimal_value(body) > u64::MAX {
        None
    } else {
        Some(decimal_value(body) as u64)
    }
}

/// Parses a decimal `u64` the way `str::parse::<u64>` does.
#[verifier::spinoff_prover]
#[verifier::rlimit(50)]
pub fn parse_u64_str(text: &str) -> (r: Option<u64>)
    ensures
        r == parse_u64(text@),
{
    let s = chars_of(text);
    let n = s.len();
    let start: usize = if n > 0 && s[0] == '+' { 1 } else { 0 };
    let ghost body = if s@.len() > 0 && s@[0] == '+' { s@.subrange(1, s@.len() as int) } else { s@ };
    assert(start == 0 ==> body =~= s@.subrange(0, n as int));
    if start >= n {
        assert(!all_digits(body));
        return None;
    }
    let mut v: u128 = 0;
    let mut i: usize = start;
    assert(body.subrange(0, 0) =~= Seq::<char>::empty());
    while i < n
        invariant
            start <= i <= n == s@.len(),
            s@ == text@,
            body == s@.subrange(start as int, n as int),
            body == (if s@.len() > 0 && s@[0] == '+' { s@.subrange(1, s@.len() as int) } else { s@ }),
            forall|k: int| 0 <= k < i - start ==> is_ascii_digit(#[trigger] body[k]),
            v == decimal_value(body.subrange(0, i - start)),
            0 <= v <= u64::MAX,
        decreases n - i,
    {
        let c = s[i];
        if !('0' <= c && c <= '9') {
            assert(!is_ascii_digit(body[i - start]));
            return None;
        }
        let d: u128 = ((c as u32) - ('0' as u32)) as u128;
        let ghost sub = body.subrange(0, i - start + 1);
        assert(sub.drop_last() =~= body.subrange(0, i - start));
        assert(sub.last() == c);
        let nv = v * 10 + d;
        if nv > 0xffff_ffff_ffff_ffff {
            proof {
                assert(decimal_value(sub) > u64::MAX);
                assert forall|j: int| 0 <= j < sub.len() implies is_ascii_digit(#[trigger] sub[j]) by {
                    assert(sub[j] == body[j]);
                }
                if all_digits(body) {
                    decimal_value_grows(body, i - start + 1);
                }
            }
            return None;
        }
        v = nv;
        i = i + 1;
    }
    assert(body.subrange(0, body.len() as int) =~= body);
    Some(v as u64)
}

proof fn decimal_value_grows(s: Seq<char>, k: int)
    requires
        0 <= k <= s.len(),
        forall|i: int| 0 <= i < s.len() ==> is_ascii_digit(#[trigger] s[i]),
    ensures
        decimal_value(s) >= decimal_value(s.subrange(0, k)),
    decreases s.len() - k,
{
    if k == s.len() {
        assert(s.subrange(0, k) =~= s);
    } else {
        decimal_value_grows(s, k + 1);
        let sub = s.subrange(0, k + 1);
        assert(sub.drop_last() =~= s.subrange(0, k));
        assert forall|i: int| 0 <= i < sub.len() implies is_ascii_digit(#[trigger] sub[i]) by {
            assert(sub[i] == s[i]);
        }
        decimal_value_nonneg(sub);
    }
}


/// Whether `n` occurs in `h` at position `i`.
pub fn matches_at_pub(h: &Vec<char>, n: &Vec<char>, i: usize) -> (r: bool)
    ensures
        r == occurs_at(h@, n@, i as int),
{
    if n.len() > h.len() || i > h.len() - n.len() {
        return false;
    }
    matches_at(h, n, i)
}

} // verus!
