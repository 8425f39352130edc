use vstd::prelude::*;

verus! {

/// Relies on String::push, as std documents it: appends one character to
/// the end of the string.
pub assume_specification[ String::push ](s: &mut String, c: char)
    ensures
        final(s)@ == old(s)@.push(c),
;

/// The whitespace characters the engine trims from command text.
pub open spec fn spec_is_space(c: char) -> bool {
    c == ' ' || c == '\t' || c == '\n' || c == '\r'
}

/// Index of the first non-space character, or the length if none.
pub open spec fn spec_trim_start_idx(s: Seq<char>) -> int
    decreases s.len(),
{
    if s.len() == 0 {
        0
    } else if !spec_is_space(s[0]) {
        0
    } else {
        1 + spec_trim_start_idx(s.skip(1))
    }
}

/// Index one past the last non-space character, or 0 if none.
pub open spec fn spec_trim_end_idx(s: Seq<char>) -> int
    decreases s.len(),
{
    if s.len() == 0 {
        0
    } else if !spec_is_space(s[s.len() - 1]) {
        s.len() as int
    } else {
        spec_trim_end_idx(s.take(s.len() - 1))
    }
}

/// The sequence with leading and trailing spaces removed.
pub open spec fn spec_trim_seq(s: Seq<char>) -> Seq<char> {
    if spec_trim_start_idx(s) == s.len() {
        Seq::empty()
    } else {
        s.subrange(spec_trim_start_idx(s), spec_trim_end_idx(s))
    }
}

/// ASCII uppercase letters lowered; all other characters unchanged.
pub open spec fn spec_lower_char(c: char) -> char {
    match c {
        'A' => 'a',
        'B' => 'b',
        'C' => 'c',
        'D' => 'd',
        'E' => 'e',
        'F' => 'f',
        'G' => 'g',
        'H' => 'h',
        'I' => 'i',
        'J' => 'j',
        'K' => 'k',
        'L' => 'l',
        'M' => 'm',
        'N' => 'n',
        'O' => 'o',
        'P' => 'p',
        'Q' => 'q',
        'R' => 'r',
        'S' => 's',
        'T' => 't',
        'U' => 'u',
        'V' => 'v',
        'W' => 'w',
        'X' => 'x',
        'Y' => 'y',
        'Z' => 'z',
        _ => c,
    }
}

/// A sequence with every character ASCII-lowered.
pub open spec fn spec_lower_seq(s: Seq<char>) -> Seq<char> {
    s.map_values(|c: char| spec_lower_char(c))
}

/// `n` occurs as a contiguous run somewhere in `h`.
pub open spec fn spec_seq_contains(h: Seq<char>, n: Seq<char>) -> bool {
    exists|j: int|
        0 <= j && j + n.len() <= h.len() && #[trigger] h.subrange(j, j + n.len() as int) == n
}

/// Index of the first occurrence of `n` in `h`, if any.
pub open spec fn spec_find_sub(h: Seq<char>, n: Seq<char>) -> Option<int>
    decreases h.len(),
{
    if n.len() > h.len() {
        None
    } else if h.subrange(0, n.len() as int) == n {
        Some(0)
    } else if h.len() <= n.len() {
        None
    } else {
        match spec_find_sub(h.skip(1), n) {
            Some(i) => Some(i + 1),
            None => None,
        }
    }
}

/// ASCII-lowers one character.
pub fn lower_char(c: char) -> (r: char)
    ensures
        r == spec_lower_char(c),
{
    match c {
        'A' => 'a',
        'B' => 'b',
        'C' => 'c',
        'D' => 'd',
        'E' => 'e',
        'F' => 'f',
        'G' => 'g',
        'H' => 'h',
        'I' => 'i',
        'J' => 'j',
        'K' => 'k',
        'L' => 'l',
        'M' => 'm',
        'N' => 'n',
        'O' => 'o',
        'P' => 'p',
        'Q' => 'q',
        'R' => 'r',
        'S' => 's',
        'T' => 't',
        'U' => 'u',
        'V' => 'v',
        'W' => 'w',
        'X' => 'x',
        'Y' => 'y',
        'Z' => 'z',
        _ => c,
    }
}

/// Whether the engine treats a character as trimmable whitespace.
pub fn is_space_char(c: char) -> (r: bool)
    ensures
        r == spec_is_space(c),
{
    c == ' ' || c == '\t' || c == '\n' || c == '\r'
}

/// An index with only spaces before it, and a non-space (or the end) at
/// it, is the trim start.
proof fn lemma_trim_start_char(s: Seq<char>, i: int)
    requires
        0 <= i <= s.len(),
        forall|j: int| 0 <= j < i ==> spec_is_space(#[trigger] s[j]),
        i == s.len() || !spec_is_space(s[i]),
    ensures
        spec_trim_start_idx(s) == i,
    decreases i,
{
    if i == 0 {
    } else {
        assert(spec_is_space(s[0]));
        lemma_trim_start_char(s.skip(1), i - 1);
    }
}

/// An index with only spaces from it on, and a non-space (or the start)
/// just before it, is the trim end.
proof fn lemma_trim_end_char(s: Seq<char>, i: int)
    requires
        0 <= i <= s.len(),
        forall|j: int| i <= j < s.len() ==> spec_is_space(#[trigger] s[j]),
        i == 0 || !spec_is_space(s[i - 1]),
    ensures
        spec_trim_end_idx(s) == i,
    decreases s.len() - i,
{
    if i == s.len() {
        if s.len() > 0 {
        }
    } else {
        assert(spec_is_space(s[s.len() - 1]));
        lemma_trim_end_char(s.take(s.len() - 1), i);
    }
}

/// Removes leading and trailing whitespace, returning a slice of the
/// input.
pub fn trim_str<'a>(s: &'a str) -> (r: &'a str)
    ensures
        r@ == spec_trim_seq(s@),
{
    let len: usize = s.unicode_len();
    let mut a: usize = 0;
    while a < len && is_space_char(s.get_char(a))
        invariant
            0 <= a <= len,
            len == s@.len(),
            forall|j: int| 0 <= j < a ==> spec_is_space(#[trigger] s@[j]),
        decreases len - a,
    {
        a = a + 1;
    }
    proof {
        lemma_trim_start_char(s@, a as int);
    }
    if a == len {
        let r = s.substring_char(len, len);
        proof {
            assert(r@ =~= spec_trim_seq(s@));
        }
        return r;
    }
    let mut b: usize = len;
    while b > a && is_space_char(s.get_char(b - 1))
        invariant
            a <= b <= len,
            len == s@.len(),
            a < len,
            !spec_is_space(s@[a as int]),
            forall|j: int| b <= j < len ==> spec_is_space(#[trigger] s@[j]),
        decreases b,
    {
        b = b - 1;
    }
    proof {
        assert(b > a);
        lemma_trim_end_char(s@, b as int);
    }
    s.substring_char(a, b)
}

/// ASCII-lowers a whole string.
pub fn to_lower_string(s: &str) -> (r: String)
    ensures
        r@ == spec_lower_seq(s@),
{
    let len: usize = s.unicode_len();
    let mut out: String = String::new();
    let mut i: usize = 0;
    while i < len
        invariant
            0 <= i <= len,
            len == s@.len(),
            out@ =~= spec_lower_seq(s@.subrange(0, i as int)),
        decreases len - i,
    {
        let c = lower_char(s.get_char(i));
        out.push(c);
        proof {
            assert(out@ =~= spec_lower_seq(s@.subrange(0, i + 1 as int)));
        }
        i = i + 1;
    }
    proof {
        assert(s@.subrange(0, len as int) =~= s@);
    }
    out
}

/// Whether `n` matches `h` starting at `at`.
fn match_at(h: &str, n: &str, at: usize, hl: usize, nl: usize) -> (r: bool)
    requires
        hl == h@.len(),
        nl == n@.len(),
        at + nl <= hl,
    ensures
        r == (h@.subrange(at as int, at + n@.len() as int) == n@),
{
    let mut k: usize = 0;
    while k < nl
        invariant
            0 <= k <= nl,
            hl == h@.len(),
            nl == n@.len(),
            at + nl <= hl,
            forall|t: int| 0 <= t < k ==> h@[at + t] == #[trigger] n@[t],
        decreases nl - k,
    {
        if s_get(h, at + k) != s_get(n, k) {
            proof {
                let sub = h@.subrange(at as int, at + n@.len() as int);
                assert(sub[k as int] != n@[k as int]);
            }
            return false;
        }
        k = k + 1;
    }
    proof {
        assert(h@.subrange(at as int, at + n@.len() as int) =~= n@);
    }
    true
}

/// One character of a string by index.
pub fn s_get(s: &str, i: usize) -> (c: char)
    requires
        i < s@.len(),
    ensures
        c == s@[i as int],
{
    s.get_char(i)
}

/// The first match found from the front is the one the recursive search
/// names.
proof fn lemma_find_first(h: Seq<char>, n: Seq<char>, i: int)
    requires
        0 <= i,
        i + n.len() <= h.len(),
        h.subrange(i, i + n.len() as int) == n,
        forall|j: int| 0 <= j < i ==> #[trigger] h.subrange(j, j + n.len() as int) != n,
    ensures
        spec_find_sub(h, n) == Some(i),
    decreases h.len(),
{
    broadcast use vstd::seq_lib::group_seq_properties;

    if i == 0 {
        assert(h.subrange(0, 0 + n.len() as int) == n);
    } else {
        assert(h.subrange(0, 0 + n.len() as int) != n);
        assert(h.subrange(0, n.len() as int) != n);
        let t = h.skip(1);
        assert(t.subrange(i - 1, i - 1 + n.len() as int) =~= h.subrange(i, i + n.len() as int));
        assert forall|j: int| 0 <= j < i - 1 implies #[trigger] t.subrange(j, j + n.len() as int) != n by {
            assert(t.subrange(j, j + n.len() as int) =~= h.subrange(j + 1, j + 1 + n.len() as int));
        }
        lemma_find_first(t, n, i - 1);
    }
}

/// When no position matches, the recursive search reports none.
proof fn lemma_find_none(h: Seq<char>, n: Seq<char>)
    requires
        forall|j: int| 0 <= j && j + n.len() <= h.len() ==> #[trigger] h.subrange(j, j + n.len() as int) != n,
    ensures
        spec_find_sub(h, n) == None::<int>,
    decreases h.len(),
{
    broadcast use vstd::seq_lib::group_seq_properties;

    if n.len() <= h.len() {
        assert(h.subrange(0, 0 + n.len() as int) != n);
        assert(h.subrange(0, n.len() as int) != n);
        let t = h.skip(1);
        assert forall|j: int| 0 <= j && j + n.len() <= t.len() implies #[trigger] t.subrange(
            j,
            j + n.len() as int,
        ) != n by {
            assert(t.subrange(j, j + n.len() as int) =~= h.subrange(j + 1, j + 1 + n.len() as int));
        }
        lemma_find_none(t, n);
    }
}

/// Finds the first occurrence of `n` in `h` by character index.
pub fn find_sub(h: &str, n: &str) -> (r: Option<usize>)
    ensures
        match r {
            Some(i) => spec_find_sub(h@, n@) == Some(i as int),
            None => spec_find_sub(h@, n@) == None::<int>,
        },
{
    let hl: usize = h.unicode_len();
    let nl: usize = n.unicode_len();
    if nl > hl {
        proof {
            lemma_find_none(h@, n@);
        }
        return None;
    }
    if nl == 0 {
        proof {
            assert(h@.subrange(0, n@.len() as int) =~= n@);
        }
        return Some(0);
    }
    let mut at: usize = 0;
    while at <= hl - nl
        invariant
            0 <= at,
            1 <= nl <= hl,
            at <= hl - nl + 1,
            hl == h@.len(),
            nl == n@.len(),
            forall|j: int| 0 <= j < at ==> #[trigger] h@.subrange(j, j + n@.len() as int) != n@,
        decreases hl - at,
    {
        if match_at(h, n, at, hl, nl) {
            proof {
                lemma_find_first(h@, n@, at as int);
            }
            return Some(at);
        }
        at = at + 1;
    }
    proof {
        lemma_find_none(h@, n@);
    }
    None
}

/// Whether `n` occurs anywhere in `h`.
pub fn contains_sub(h: &str, n: &str) -> (r: bool)
    ensures
        r == spec_seq_contains(h@, n@),
{
    match find_sub(h, n) {
        Some(i) => {
            proof {
                lemma_find_means_contains(h@, n@, i as int);
            }
            true
        },
        None => {
            proof {
                lemma_none_means_absent(h@, n@);
            }
            false
        },
    }
}

/// A found index is a witness that the needle occurs.
proof fn lemma_find_means_contains(h: Seq<char>, n: Seq<char>, i: int)
    requires
        spec_find_sub(h, n) == Some(i),
    ensures
        spec_seq_contains(h, n),
    decreases h.len(),
{
    broadcast use vstd::seq_lib::group_seq_properties;

    if n.len() > h.len() {
    } else if h.subrange(0, n.len() as int) == n {
        assert(0 + n.len() <= h.len() && h.subrange(0, 0 + n.len() as int) == n);
    } else if h.len() <= n.len() {
    } else {
        let t = h.skip(1);
        lemma_find_means_contains(t, n, i - 1);
        let j = choose|j: int|
            0 <= j && j + n.len() <= t.len() && #[trigger] t.subrange(j, j + n.len() as int) == n;
        assert(t.subrange(j, j + n.len() as int) =~= h.subrange(j + 1, j + 1 + n.len() as int));
        assert(h.subrange(j + 1, j + 1 + n.len() as int) == n);
    }
}

/// If the search finds nothing, nothing is there.
proof fn lemma_none_means_absent(h: Seq<char>, n: Seq<char>)
    requires
        spec_find_sub(h, n) == None::<int>,
    ensures
        !spec_seq_contains(h, n),
    decreases h.len(),
{
    broadcast use vstd::seq_lib::group_seq_properties;

    if n.len() > h.len() {
    } else if h.len() <= n.len() {
        assert forall|j: int| 0 <= j && j + n.len() <= h.len() implies #[trigger] h.subrange(
            j,
            j + n.len() as int,
        ) != n by {
            assert(j == 0);
            assert(h.subrange(0, 0 + n.len() as int) != n);
        }
    } else {
        let t = h.skip(1);
        lemma_none_means_absent(t, n);
        assert forall|j: int| 0 <= j && j + n.len() <= h.len() implies #[trigger] h.subrange(
            j,
            j + n.len() as int,
        ) != n by {
            if j > 0 {
                assert(t.subrange(j - 1, j - 1 + n.len() as int) =~= h.subrange(
                    j,
                    j + n.len() as int,
                ));
                assert(t.subrange(j - 1, j - 1 + n.len() as int) != n);
            }
        }
    }
}

/// Whether the ASCII-lowered form of `s` equals the keyword `lit`.
pub fn eq_lowered(s: &str, lit: &str) -> (r: bool)
    ensures
        r == (spec_lower_seq(s@) == lit@),
{
    let sl: usize = s.unicode_len();
    let ll: usize = lit.unicode_len();
    if sl != ll {
        proof {
            assert(spec_lower_seq(s@).len() == s@.len());
        }
        return false;
    }
    let mut i: usize = 0;
    while i < sl
        invariant
            0 <= i <= sl,
            sl == s@.len(),
            sl == lit@.len(),
            forall|t: int| 0 <= t < i ==> spec_lower_char(#[trigger] s@[t]) == lit@[t],
        decreases sl - i,
    {
        if lower_char(s.get_char(i)) != lit.get_char(i) {
            proof {
                assert(spec_lower_seq(s@)[i as int] != lit@[i as int]);
            }
            return false;
        }
        i = i + 1;
    }
    proof {
        assert(spec_lower_seq(s@) =~= lit@);
    }
    true
}

/// A found index is in range and marks a real occurrence.
pub proof fn lemma_find_sub_some(h: Seq<char>, n: Seq<char>, i: int)
    requires
        spec_find_sub(h, n) == Some(i),
    ensures
        0 <= i,
        i + n.len() <= h.len(),
        h.subrange(i, i + n.len() as int) == n,
    decreases h.len(),
{
    broadcast use vstd::seq_lib::group_seq_properties;

    if n.len() > h.len() {
    } else if h.subrange(0, n.len() as int) == n {
    } else if h.len() <= n.len() {
    } else {
        let t = h.skip(1);
        lemma_find_sub_some(t, n, i - 1);
        assert(t.subrange(i - 1, i - 1 + n.len() as int) =~= h.subrange(i, i + n.len() as int));
    }
}

/// Whether two strings hold the same characters.
pub fn str_eq(a: &str, b: &str) -> (r: bool)
    ensures
        r == (a@ == b@),
{
    let al: usize = a.unicode_len();
    let bl: usize = b.unicode_len();
    if al != bl {
        return false;
    }
    let mut i: usize = 0;
    while i < al
        invariant
            0 <= i <= al,
            al == a@.len(),
            al == b@.len(),
            forall|t: int| 0 <= t < i ==> a@[t] == #[trigger] b@[t],
        decreases al - i,
    {
        if s_get(a, i) != s_get(b, i) {
            return false;
        }
        i = i + 1;
    }
    proof {
        assert(a@ =~= b@);
    }
    true
}

} // verus!
