//! Small verified string helpers: character-wise equality, decimal
//! rendering of numbers, and comma-separated field handling, so that the
//! services need no unspecified `std` string machinery.

use vstd::prelude::*;
use vstd::string::StrSliceExecFns;
use vstd::string::StringExecFns;

verus! {

/// Character-wise equality of two string slices.
pub fn str_eq(a: &str, b: &str) -> (r: bool)
    ensures
        r == (a@ == b@),
{
    let alen = a.unicode_len();
    let blen = b.unicode_len();
    if alen != blen {
        return false;
    }
    let mut i: usize = 0;
    while i < alen
        invariant
            0 <= i <= alen,
            alen == a@.len(),
            alen == b@.len(),
            forall|j: int| 0 <= j < i ==> a@[j] == b@[j],
        decreases alen - i,
    {
        if a.get_char(i) != b.get_char(i) {
            return false;
        }
        i = i + 1;
    }
    proof {
        assert(a@ =~= b@);
    }
    true
}

/// The character for one decimal digit.
pub open spec fn digit_char(d: nat) -> char {
    if d == 0 {
        '0'
    } else if d == 1 {
        '1'
    } else if d == 2 {
        '2'
    } else if d == 3 {
        '3'
    } else if d == 4 {
        '4'
    } else if d == 5 {
        '5'
    } else if d == 6 {
        '6'
    } else if d == 7 {
        '7'
    } else if d == 8 {
        '8'
    } else {
        '9'
    }
}

/// The decimal digit characters of `n`, most significant first.
pub open spec fn dec_chars(n: nat) -> Seq<char>
    decreases n,
{
    if n < 10 {
        seq![digit_char(n)]
    } else {
        dec_chars(n / 10) + seq![digit_char(n % 10)]
    }
}

fn digit_str(d: usize) -> (r: &'static str)
    requires
        d < 10,
    ensures
        r@ =~= seq![digit_char(d as nat)],
{
    proof {
        reveal_strlit("0");
        reveal_strlit("1");
        reveal_strlit("2");
        reveal_strlit("3");
        reveal_strlit("4");
        reveal_strlit("5");
        reveal_strlit("6");
        reveal_strlit("7");
        reveal_strlit("8");
        reveal_strlit("9");
    }
    if d == 0 {
        "0"
    } else if d == 1 {
        "1"
    } else if d == 2 {
        "2"
    } else if d == 3 {
        "3"
    } else if d == 4 {
        "4"
    } else if d == 5 {
        "5"
    } else if d == 6 {
        "6"
    } else if d == 7 {
        "7"
    } else if d == 8 {
        "8"
    } else {
        "9"
    }
}

/// Renders `n` in decimal.
pub fn decimal_string(n: usize) -> (s: String)
    ensures
        s@ == dec_chars(n as nat),
    decreases n,
{
    if n < 10 {
        String::from_str(digit_str(n))
    } else {
        let mut s = decimal_string(n / 10);
        s.append(digit_str(n % 10));
        s
    }
}

/// `prefix` followed by the decimal digits of `n`.
pub fn prefixed_number(prefix: &str, n: usize) -> (s: String)
    ensures
        s@ == prefix@ + dec_chars(n as nat),
{
    let mut s = String::from_str(prefix);
    let digits = decimal_string(n);
    s.append(digits.as_str());
    s
}

/// The index of the first comma at or after `j`, or the length.
pub open spec fn comma_from(s: Seq<char>, j: int) -> int
    decreases s.len() - j,
{
    if j < 0 || j >= s.len() {
        s.len() as int
    } else if s[j] == ',' {
        j
    } else {
        comma_from(s, j + 1)
    }
}

/// The first comma at or after `j` lies between `j` and the length.
pub proof fn lemma_comma_from_props(s: Seq<char>, j: int)
    requires
        0 <= j <= s.len(),
    ensures
        j <= comma_from(s, j) <= s.len(),
        comma_from(s, j) < s.len() ==> s[comma_from(s, j)] == ',',
    decreases s.len() - j,
{
    if j < s.len() && s[j] != ',' {
        lemma_comma_from_props(s, j + 1);
    }
}

/// The comma-separated segments of `s` from index `j` on.
pub open spec fn segments_from(s: Seq<char>, j: int) -> Seq<Seq<char>>
    decreases s.len() - j,
    when 0 <= j <= s.len()
    via segments_from_decreases
{
    if comma_from(s, j) >= s.len() {
        seq![s.subrange(j, s.len() as int)]
    } else {
        seq![s.subrange(j, comma_from(s, j))] + segments_from(s, comma_from(s, j) + 1)
    }
}

#[via_fn]
proof fn segments_from_decreases(s: Seq<char>, j: int) {
    lemma_comma_from_props(s, j);
}

/// The comma-separated segments of `s`.
pub open spec fn segments(s: Seq<char>) -> Seq<Seq<char>> {
    segments_from(s, 0)
}

/// Is `c` one of the plain whitespace characters trimmed from field
/// names?
pub open spec fn is_space(c: char) -> bool {
    c == ' ' || c == '\t' || c == '\n' || c == '\r'
}

/// The index of the first non-space at or after `j`, or the length.
pub open spec fn trim_lo(s: Seq<char>, j: int) -> int
    decreases s.len() - j,
{
    if j < 0 || j >= s.len() {
        s.len() as int
    } else if is_space(s[j]) {
        trim_lo(s, j + 1)
    } else {
        j
    }
}

/// The index after the last non-space strictly before `j`, or zero.
pub open spec fn trim_hi(s: Seq<char>, j: int) -> int
    decreases j,
{
    if j <= 0 || j > s.len() {
        0
    } else if is_space(s[j - 1]) {
        trim_hi(s, j - 1)
    } else {
        j
    }
}

/// `s` with leading and trailing whitespace removed.
pub open spec fn trimmed(s: Seq<char>) -> Seq<char> {
    let lo = trim_lo(s, 0);
    let hi = trim_hi(s, s.len() as int);
    if lo <= hi {
        s.subrange(lo, hi)
    } else {
        Seq::empty()
    }
}

proof fn lemma_trim_lo_props(s: Seq<char>, j: int)
    requires
        0 <= j <= s.len(),
    ensures
        j <= trim_lo(s, j) <= s.len(),
        trim_lo(s, j) < s.len() ==> !is_space(s[trim_lo(s, j)]),
    decreases s.len() - j,
{
    if j < s.len() && is_space(s[j]) {
        lemma_trim_lo_props(s, j + 1);
    }
}

proof fn lemma_trim_hi_props(s: Seq<char>, j: int)
    requires
        0 <= j <= s.len(),
    ensures
        0 <= trim_hi(s, j) <= j,
        trim_hi(s, j) > 0 ==> !is_space(s[trim_hi(s, j) - 1]),
    decreases j,
{
    if j > 0 && is_space(s[j - 1]) {
        lemma_trim_hi_props(s, j - 1);
    }
}

/// Finds the first comma at or after `from`.
fn comma_index(s: &str, from: usize) -> (r: usize)
    requires
        from <= s@.len(),
    ensures
        r == comma_from(s@, from as int),
        from <= r <= s@.len(),
{
    let n = s.unicode_len();
    let mut i: usize = from;
    while i < n
        invariant
            from <= i <= n,
            n == s@.len(),
            comma_from(s@, from as int) == comma_from(s@, i as int),
        decreases n - i,
    {
        if s.get_char(i) == ',' {
            return i;
        }
        i = i + 1;
    }
    i
}

/// Trims whitespace from both ends of `s`.
fn trim_str<'a>(s: &'a str) -> (r: &'a str)
    ensures
        r@ == trimmed(s@),
{
    let n = s.unicode_len();
    let mut lo: usize = 0;
    while lo < n
        invariant
            0 <= lo <= n,
            n == s@.len(),
            trim_lo(s@, 0) == trim_lo(s@, lo as int),
        ensures
            0 <= lo <= n,
            n == s@.len(),
            trim_lo(s@, 0) == lo as int,
        decreases n - lo,
    {
        let c = s.get_char(lo);
        if !(c == ' ' || c == '\t' || c == '\n' || c == '\r') {
            break ;
        }
        lo = lo + 1;
    }
    let mut hi: usize = n;
    while hi > lo
        invariant
            lo <= hi <= n,
            n == s@.len(),
            trim_hi(s@, n as int) == trim_hi(s@, hi as int),
            forall|j: int| hi <= j < n ==> is_space(#[trigger] s@[j]),
        ensures
            lo <= hi <= n,
            n == s@.len(),
            trim_hi(s@, n as int) == trim_hi(s@, hi as int),
            hi > lo ==> !is_space(s@[hi - 1]),
            forall|j: int| hi <= j < n ==> is_space(#[trigger] s@[j]),
        decreases hi,
    {
        let c = s.get_char(hi - 1);
        if !(c == ' ' || c == '\t' || c == '\n' || c == '\r') {
            break ;
        }
        hi = hi - 1;
    }
    proof {
        lemma_trim_lo_props(s@, 0);
        lemma_trim_hi_props(s@, n as int);
        if hi > lo {
            assert(trim_hi(s@, hi as int) == hi as int);
            assert(trimmed(s@) == s@.subrange(lo as int, hi as int));
        } else {
            if lo < n {
                assert(!is_space(s@[lo as int]));
                assert(is_space(s@[lo as int]));
            }
            assert(lo == n && hi == n);
            assert(trim_hi(s@, n as int) == trim_hi(s@, hi as int));
            assert(trimmed(s@) =~= s@.subrange(lo as int, hi as int));
        }
    }
    s.substring_char(lo, hi)
}

/// Is `name` one of the comma-separated, whitespace-trimmed segments of
/// `s` from index `from` on?
fn seg_match_from(s: &str, from: usize, name: &str) -> (r: bool)
    requires
        from <= s@.len(),
    ensures
        r == exists|k: int|
            0 <= k < segments_from(s@, from as int).len() && trimmed(
                #[trigger] segments_from(s@, from as int)[k],
            ) == name@,
    decreases s@.len() - from,
{
    let n = s.unicode_len();
    let c = comma_index(s, from);
    let seg = s.substring_char(from, c);
    let t = trim_str(seg);
    let ghost segs = segments_from(s@, from as int);
    if str_eq(t, name) {
        proof {
            assert(segs[0] == s@.subrange(from as int, comma_from(s@, from as int)));
            assert(trimmed(segs[0]) == name@);
        }
        true
    } else if c >= n {
        proof {
            assert(segs.len() == 1);
            assert(trimmed(segs[0]) != name@);
        }
        false
    } else {
        let r = seg_match_from(s, c + 1, name);
        proof {
            let tail = segments_from(s@, c + 1);
            assert(segs =~= seq![s@.subrange(from as int, c as int)] + tail);
            if r {
                let k = choose|k: int|
                    0 <= k < tail.len() && trimmed(#[trigger] tail[k]) == name@;
                assert(segs[k + 1] == tail[k]);
            } else {
                assert forall|k: int|
                    0 <= k < segs.len() implies trimmed(#[trigger] segs[k]) != name@ by {
                    if k > 0 {
                        assert(segs[k] == tail[k - 1]);
                    }
                }
            }
        }
        r
    }
}

/// Is `name` one of the comma-separated, whitespace-trimmed segments of
/// `s`? (How a request names the parts it wants.)
pub fn seg_match(s: &str, name: &str) -> (r: bool)
    ensures
        r == exists|k: int|
            0 <= k < segments(s@).len() && trimmed(#[trigger] segments(s@)[k]) == name@,
{
    seg_match_from(s, 0, name)
}

/// The text before the first comma of `s`.
pub fn first_segment(s: &str) -> (r: String)
    ensures
        r@ == s@.subrange(0, comma_from(s@, 0)),
{
    let c = comma_index(s, 0);
    String::from_str(s.substring_char(0, c))
}

} // verus!
