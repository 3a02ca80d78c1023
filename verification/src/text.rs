use vstd::prelude::*;

verus! {

/// Whether `c` carries the Unicode property `White_Space`.
pub open spec fn is_whitespace(c: char) -> bool {
    let n = c as u32;
    ||| 0x09 <= n <= 0x0D
    ||| n == 0x20
    ||| n == 0x85
    ||| n == 0xA0
    ||| n == 0x1680
    ||| 0x2000 <= n <= 0x200A
    ||| n == 0x2028
    ||| n == 0x2029
    ||| n == 0x202F
    ||| n == 0x205F
    ||| n == 0x3000
}

/// Decides `is_whitespace` for one character.
pub fn char_is_whitespace(c: char) -> (r: bool)
    ensures
        r == is_whitespace(c),
{
    let n: u32 = c as u32;
    (0x09 <= n && n <= 0x0D) || n == 0x20 || n == 0x85 || n == 0xA0 || n == 0x1680 || (0x2000 <= n
        && n <= 0x200A) || n == 0x2028 || n == 0x2029 || n == 0x202F || n == 0x205F || n == 0x3000
}

/// The first index at or after `i` that holds no whitespace, or the length of
/// `s` where every character from `i` on is whitespace.
pub open spec fn trim_start_at(s: Seq<char>, i: int) -> int
    decreases s.len() - i,
{
    if 0 <= i < s.len() && is_whitespace(s[i]) {
        trim_start_at(s, i + 1)
    } else {
        i
    }
}

/// The end of the text that is left of `s[start..j]` once its trailing
/// whitespace is cut off.
pub open spec fn trim_end_at(s: Seq<char>, start: int, j: int) -> int
    decreases j,
{
    if 0 <= start < j <= s.len() && is_whitespace(s[j - 1]) {
        trim_end_at(s, start, j - 1)
    } else {
        j
    }
}

/// `s` without its leading and trailing whitespace.
pub open spec fn trimmed(s: Seq<char>) -> Seq<char> {
    let start = trim_start_at(s, 0);
    s.subrange(start, trim_end_at(s, start, s.len() as int))
}

proof fn lemma_trim_start_at(s: Seq<char>, i: int, a: int)
    requires
        0 <= i <= a <= s.len(),
        forall|k: int| i <= k < a ==> is_whitespace(#[trigger] s[k]),
        a < s.len() ==> !is_whitespace(s[a]),
    ensures
        trim_start_at(s, i) == a,
    decreases a - i,
{
    if i < a {
        lemma_trim_start_at(s, i + 1, a);
    }
}

proof fn lemma_trim_end_at(s: Seq<char>, start: int, j: int, b: int)
    requires
        0 <= start <= b <= j <= s.len(),
        forall|k: int| b <= k < j ==> is_whitespace(#[trigger] s[k]),
        start < b ==> !is_whitespace(s[b - 1]),
    ensures
        trim_end_at(s, start, j) == b,
    decreases j - b,
{
    if b < j {
        lemma_trim_end_at(s, start, j - 1, b);
    }
}

/// Cuts leading and trailing whitespace off `s`.
pub fn trim(s: &str) -> (r: &str)
    ensures
        r@ == trimmed(s@),
{
    let n: usize = s.unicode_len();
    let mut i: usize = 0;
    let mut start: usize = 0;
    let mut end: usize = 0;
    let mut found: bool = false;
    let chars = s.chars();
    for c in it: chars
        invariant
            it.seq() == s@,
            n == s@.len(),
            i == it.index(),
            !found ==> start == 0 && end == 0,
            !found ==> forall|k: int| 0 <= k < i ==> is_whitespace(#[trigger] s@[k]),
            found ==> start < end <= i,
            found ==> forall|k: int| 0 <= k < start ==> is_whitespace(#[trigger] s@[k]),
            found ==> !is_whitespace(s@[start as int]) && !is_whitespace(s@[end - 1]),
            found ==> forall|k: int| end <= k < i ==> is_whitespace(#[trigger] s@[k]),
    {
        if !char_is_whitespace(c) {
            if !found {
                start = i;
                found = true;
            }
            end = i + 1;
        }
        i = i + 1;
    }
    proof {
        if found {
            lemma_trim_start_at(s@, 0, start as int);
            lemma_trim_end_at(s@, start as int, n as int, end as int);
        } else {
            lemma_trim_start_at(s@, 0, n as int);
        }
    }
    if found {
        s.substring_char(start, end)
    } else {
        s.substring_char(n, n)
    }
}

proof fn lemma_trim_start_bounds(s: Seq<char>, i: int)
    requires
        0 <= i <= s.len(),
    ensures
        i <= trim_start_at(s, i) <= s.len(),
        forall|k: int| i <= k < trim_start_at(s, i) ==> is_whitespace(#[trigger] s[k]),
        trim_start_at(s, i) < s.len() ==> !is_whitespace(s[trim_start_at(s, i)]),
    decreases s.len() - i,
{
    if i < s.len() && is_whitespace(s[i]) {
        lemma_trim_start_bounds(s, i + 1);
    }
}

proof fn lemma_trim_end_bounds(s: Seq<char>, start: int, j: int)
    requires
        0 <= start <= j <= s.len(),
    ensures
        start <= trim_end_at(s, start, j) <= j,
        forall|k: int| trim_end_at(s, start, j) <= k < j ==> is_whitespace(#[trigger] s[k]),
        start < trim_end_at(s, start, j) ==> !is_whitespace(s[trim_end_at(s, start, j) - 1]),
    decreases j,
{
    if start < j && is_whitespace(s[j - 1]) {
        lemma_trim_end_bounds(s, start, j - 1);
    }
}

/// Trimming cuts whitespace and nothing else: what is left is one stretch
/// of the text, all that stands before and behind it is whitespace, and it
/// neither begins nor ends with whitespace.
pub proof fn lemma_trimmed_is_tight(s: Seq<char>)
    ensures
        ({
            let start = trim_start_at(s, 0);
            let end = trim_end_at(s, start, s.len() as int);
            &&& 0 <= start <= end <= s.len()
            &&& trimmed(s) == s.subrange(start, end)
            &&& forall|k: int| 0 <= k < start ==> is_whitespace(#[trigger] s[k])
            &&& forall|k: int| end <= k < s.len() ==> is_whitespace(#[trigger] s[k])
            &&& trimmed(s).len() > 0 ==> !is_whitespace(trimmed(s).first()) && !is_whitespace(
                trimmed(s).last(),
            )
        }),
{
    lemma_trim_start_bounds(s, 0);
    lemma_trim_end_bounds(s, trim_start_at(s, 0), s.len() as int);
}

/// Text that has been trimmed is left as it is by trimming it again.
pub proof fn lemma_trimmed_is_idempotent(s: Seq<char>)
    ensures
        trimmed(trimmed(s)) == trimmed(s),
{
    let t = trimmed(s);
    lemma_trimmed_is_tight(s);
    if t.len() > 0 {
        lemma_trim_start_at(t, 0, 0);
        lemma_trim_end_at(t, 0, t.len() as int, t.len() as int);
    } else {
        lemma_trim_start_at(t, 0, 0);
    }
    assert(t.subrange(0, t.len() as int) =~= t);
}

} // verus!
