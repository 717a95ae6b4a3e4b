use vstd::prelude::*;

verus! {

/// Whether `c` has the Unicode `White_Space` property: the control
/// characters U+0009 to U+000D, the space U+0020, U+0085, the no-break space
/// U+00A0, U+1680, the spaces U+2000 to U+200A, the line and paragraph
/// separators U+2028 and U+2029, U+202F, U+205F and U+3000.
pub open spec fn unicode_white_space(c: char) -> bool {
    let u = c as u32;
    ||| 0x09 <= u <= 0x0D
    ||| u == 0x20
    ||| u == 0x85
    ||| u == 0xA0
    ||| u == 0x1680
    ||| 0x2000 <= u <= 0x200A
    ||| u == 0x2028
    ||| u == 0x2029
    ||| u == 0x202F
    ||| u == 0x205F
    ||| u == 0x3000
}

/// `char::is_whitespace`, which its documentation describes as the Unicode
/// `White_Space` property (`unicode_white_space`).
#[verifier::external_body]
fn is_whitespace(c: char) -> (ws: bool)
    ensures
        ws == unicode_white_space(c),
{
    c.is_whitespace()
}

/// The first position at or after `i` that holds no whitespace (or the end).
pub open spec fn trim_start_from(s: Seq<char>, i: int) -> int
    decreases s.len() - i,
{
    if i < 0 || i >= s.len() {
        s.len() as int
    } else if unicode_white_space(s[i]) {
        trim_start_from(s, i + 1)
    } else {
        i
    }
}

/// The end of the text once trailing whitespace between `lo` and `j` is cut.
pub open spec fn trim_end_from(s: Seq<char>, lo: int, j: int) -> int
    decreases j - lo,
{
    if j <= lo {
        lo
    } else if unicode_white_space(s[j - 1]) {
        trim_end_from(s, lo, j - 1)
    } else {
        j
    }
}

/// `s` without leading and trailing whitespace.
pub open spec fn trimmed(s: Seq<char>) -> Seq<char> {
    let a = trim_start_from(s, 0);
    s.subrange(a, trim_end_from(s, a, s.len() as int))
}

proof fn lemma_trim_start_bounds(s: Seq<char>, i: int)
    requires
        0 <= i <= s.len(),
    ensures
        i <= trim_start_from(s, i) <= s.len(),
    decreases s.len() - i,
{
    if i < s.len() && unicode_white_space(s[i]) {
        lemma_trim_start_bounds(s, i + 1);
    }
}

/// `s` without leading and trailing whitespace, as `str::trim` gives it.
pub fn trim(s: &str) -> (t: &str)
    ensures
        t@ == trimmed(s@),
{
    let len = s.unicode_len();
    let mut start: usize = 0;
    while start < len && is_whitespace(s.get_char(start))
        invariant
            len == s@.len(),
            start <= len,
            trim_start_from(s@, 0) == trim_start_from(s@, start as int),
        decreases len - start,
    {
        start += 1;
    }
    let mut end: usize = len;
    proof {
        lemma_trim_start_bounds(s@, 0);
    }
    while end > start && is_whitespace(s.get_char(end - 1))
        invariant
            len == s@.len(),
            start <= end <= len,
            start == trim_start_from(s@, 0),
            trim_end_from(s@, start as int, len as int) == trim_end_from(s@, start as int, end as int),
        decreases end - start,
    {
        end -= 1;
    }
    s.substring_char(start, end)
}

} // verus!
