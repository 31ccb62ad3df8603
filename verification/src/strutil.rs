//! Small verified string utilities used across the library.

use vstd::prelude::*;

verus! {

/// Compares two string slices for equality of contents.
pub fn str_eq(a: &str, b: &str) -> (r: bool)
    ensures
        r == (a@ == b@),
{
    let av = a.to_owned();
    let bv = b.to_owned();
    av.eq(&bv)
}

/// The characters that a sequence of ASCII bytes spells.
pub open spec fn ascii_chars(bytes: Seq<u8>) -> Seq<char> {
    Seq::new(bytes.len(), |i: int| bytes[i] as char)
}

/// Relies on String::from_utf8: decoding bytes that are all ASCII (below
/// 128) succeeds and yields exactly one character per byte; other byte
/// sequences yield a string of at most as many characters, or nothing when
/// they are not valid UTF-8.
#[verifier::external_body]
pub fn utf8_to_string(bytes: &[u8]) -> (r: Option<String>)
    ensures
        match r {
            Some(s) => s@.len() <= bytes@.len() && ((forall|i: int|
                0 <= i < bytes@.len() ==> bytes@[i] < 128) ==> s@ == ascii_chars(bytes@)),
            None => !(forall|i: int| 0 <= i < bytes@.len() ==> bytes@[i] < 128),
        },
{
    match String::from_utf8(bytes.to_vec()) {
        Ok(s) => Some(s),
        Err(_) => None,
    }
}


/// Whether `n` occurs at position `i` of `h`.
pub open spec fn spec_match_at(h: Seq<char>, n: Seq<char>, i: int) -> bool {
    h.subrange(i, i + n.len()) == n
}

/// Whether `n` occurs as a contiguous run inside `h`.
pub open spec fn spec_contains(h: Seq<char>, n: Seq<char>) -> bool {
    exists|i: int| 0 <= i <= h.len() - n.len() && #[trigger] spec_match_at(h, n, i)
}

/// Whether `n` occurs at position `i` of `h` with ASCII case folded.
pub open spec fn spec_match_lower_at(h: Seq<char>, n: Seq<char>, i: int) -> bool {
    forall|j: int| 0 <= j < n.len() ==> spec_lower_code(h[i + j]) == spec_lower_code(n[j])
}

/// The code point of a character with ASCII uppercase folded to lowercase.
pub open spec fn spec_lower_code(c: char) -> u32 {
    if 65 <= c as u32 <= 90 {
        (c as u32 + 32) as u32
    } else {
        c as u32
    }
}

/// Whether `n` occurs inside `h` when both are compared with ASCII case
/// folded.
pub open spec fn spec_contains_lower(h: Seq<char>, n: Seq<char>) -> bool {
    exists|i: int| 0 <= i <= h.len() - n.len() && #[trigger] spec_match_lower_at(h, n, i)
}

/// Whether `p` is a prefix of `h`.
pub open spec fn spec_starts_with(h: Seq<char>, p: Seq<char>) -> bool {
    h.len() >= p.len() && h.subrange(0, p.len() as int) == p
}

/// The code point of a character with ASCII uppercase folded to lowercase.
fn lower_code(c: char) -> (r: u32)
    ensures
        r == spec_lower_code(c),
{
    let u = c as u32;
    if 65 <= u && u <= 90 {
        u + 32
    } else {
        u
    }
}

/// Whether `needle` occurs as a contiguous run inside `haystack`.
pub fn contains(haystack: &str, needle: &str) -> (r: bool)
    ensures
        r == spec_contains(haystack@, needle@),
{
    let hl = haystack.unicode_len();
    let nl = needle.unicode_len();
    if nl > hl {
        return false;
    }
    let mut i: usize = 0;
    let mut found = false;
    while !found && i <= hl - nl
        invariant
            0 <= i <= hl - nl + 1,
            nl <= hl,
            hl == haystack@.len(),
            nl == needle@.len(),
            found ==> i <= hl - nl && spec_match_at(haystack@, needle@, i as int),
            forall|i2: int| 0 <= i2 < i ==> !#[trigger] spec_match_at(haystack@, needle@, i2),
        decreases hl - nl + 1 - i, (if found { 0int } else { 1int }),
    {
        let mut j: usize = 0;
        let mut all = true;
        while j < nl
            invariant
                0 <= j <= nl,
                i + nl <= hl,
                hl == haystack@.len(),
                nl == needle@.len(),
                all == (forall|j2: int| 0 <= j2 < j ==> haystack@[i + j2] == needle@[j2]),
            decreases nl - j,
        {
            if haystack.get_char(i + j) != needle.get_char(j) {
                all = false;
            }
            j = j + 1;
        }
        if all {
            proof {
                assert(haystack@.subrange(i as int, i + needle@.len()) =~= needle@);
                assert(spec_match_at(haystack@, needle@, i as int));
            }
            found = true;
        } else {
            proof {
                if spec_match_at(haystack@, needle@, i as int) {
                    let w = choose|j2: int|
                        0 <= j2 < needle@.len() && haystack@[i + j2] != needle@[j2];
                    assert(haystack@.subrange(i as int, i + needle@.len())[w] == haystack@[i + w]);
                }
            }
            i = i + 1;
        }
    }
    found
}

/// Whether `needle` occurs inside `haystack`, compared with ASCII case
/// folded; `needle` is usually a lowercase pattern.
pub fn contains_ignore_ascii_case(haystack: &str, needle: &str) -> (r: bool)
    ensures
        r == spec_contains_lower(haystack@, needle@),
{
    let hl = haystack.unicode_len();
    let nl = needle.unicode_len();
    if nl > hl {
        return false;
    }
    let mut i: usize = 0;
    let mut found = false;
    while !found && i <= hl - nl
        invariant
            0 <= i <= hl - nl + 1,
            nl <= hl,
            hl == haystack@.len(),
            nl == needle@.len(),
            found ==> i <= hl - nl && spec_match_lower_at(haystack@, needle@, i as int),
            forall|i2: int|
                0 <= i2 < i ==> !#[trigger] spec_match_lower_at(haystack@, needle@, i2),
        decreases hl - nl + 1 - i, (if found { 0int } else { 1int }),
    {
        let mut j: usize = 0;
        let mut all = true;
        while j < nl
            invariant
                0 <= j <= nl,
                i + nl <= hl,
                hl == haystack@.len(),
                nl == needle@.len(),
                all == (forall|j2: int|
                    0 <= j2 < j ==> spec_lower_code(haystack@[i + j2]) == spec_lower_code(
                        needle@[j2],
                    )),
            decreases nl - j,
        {
            if lower_code(haystack.get_char(i + j)) != lower_code(needle.get_char(j)) {
                all = false;
            }
            j = j + 1;
        }
        if all {
            proof {
                assert(spec_match_lower_at(haystack@, needle@, i as int));
            }
            found = true;
        } else {
            proof {
                assert(!spec_match_lower_at(haystack@, needle@, i as int));
            }
            i = i + 1;
        }
    }
    found
}

/// Whether `prefix` starts `haystack`.
pub fn starts_with(haystack: &str, prefix: &str) -> (r: bool)
    ensures
        r == spec_starts_with(haystack@, prefix@),
{
    let hl = haystack.unicode_len();
    let pl = prefix.unicode_len();
    if pl > hl {
        return false;
    }
    let mut j: usize = 0;
    let mut all = true;
    while j < pl
        invariant
            0 <= j <= pl <= hl,
            hl == haystack@.len(),
            pl == prefix@.len(),
            all == (forall|j2: int| 0 <= j2 < j ==> haystack@[j2] == prefix@[j2]),
        decreases pl - j,
    {
        if haystack.get_char(j) != prefix.get_char(j) {
            all = false;
        }
        j = j + 1;
    }
    proof {
        if all {
            assert(haystack@.subrange(0, prefix@.len() as int) =~= prefix@);
        } else {
            let w = choose|j2: int| 0 <= j2 < prefix@.len() && haystack@[j2] != prefix@[j2];
            assert(haystack@.subrange(0, prefix@.len() as int)[w] == haystack@[w]);
        }
    }
    all
}

/// Whether a character counts as whitespace here: the ASCII blanks.
pub open spec fn spec_is_space(c: char) -> bool {
    c == ' ' || c == '\t' || c == '\n' || c == '\r'
}

/// Where the first word of a sequence starts: the first non-blank index.
pub open spec fn spec_word_start(s: Seq<char>, i: int) -> int
    decreases s.len() - i when 0 <= i
{
    if i >= s.len() {
        i
    } else if spec_is_space(s[i]) {
        spec_word_start(s, i + 1)
    } else {
        i
    }
}

/// Where the word starting at `i` ends: the next blank index or the end.
pub open spec fn spec_word_end(s: Seq<char>, i: int) -> int
    decreases s.len() - i when 0 <= i
{
    if i >= s.len() {
        i
    } else if spec_is_space(s[i]) {
        i
    } else {
        spec_word_end(s, i + 1)
    }
}

/// Whether a character counts as whitespace here.
fn is_space(c: char) -> (r: bool)
    ensures
        r == spec_is_space(c),
{
    c == ' ' || c == '\t' || c == '\n' || c == '\r'
}

/// The first blank-separated word of a string, or `None` when the string is
/// empty or all blanks.
pub fn first_word(s: &str) -> (r: Option<String>)
    ensures
        ({
            let start = spec_word_start(s@, 0);
            let end = spec_word_end(s@, start);
            match r {
                Some(w) => start < s@.len() && w@ == s@.subrange(start, end),
                None => start >= s@.len(),
            }
        }),
{
    let n = s.unicode_len();
    let mut start: usize = 0;
    while start < n && is_space(s.get_char(start))
        invariant
            0 <= start <= n,
            n == s@.len(),
            spec_word_start(s@, 0) == spec_word_start(s@, start as int),
        decreases n - start,
    {
        start = start + 1;
    }
    proof {
        assert(spec_word_start(s@, start as int) == start);
    }
    if start >= n {
        return None;
    }
    let mut end: usize = start;
    while end < n && !is_space(s.get_char(end))
        invariant
            start <= end <= n,
            n == s@.len(),
            spec_word_end(s@, start as int) == spec_word_end(s@, end as int),
        decreases n - end,
    {
        end = end + 1;
    }
    proof {
        assert(spec_word_end(s@, end as int) == end);
    }
    let w = s.substring_char(start, end);
    Some(w.to_owned())
}

/// Whether two strings are equal with ASCII case folded.
pub fn eq_ignore_ascii_case(a: &str, b: &str) -> (r: bool)
    ensures
        r == (a@.len() == b@.len() && (forall|j: int|
            0 <= j < a@.len() ==> spec_lower_code(a@[j]) == spec_lower_code(b@[j]))),
{
    let al = a.unicode_len();
    let bl = b.unicode_len();
    if al != bl {
        return false;
    }
    let mut j: usize = 0;
    let mut all = true;
    while j < al
        invariant
            0 <= j <= al,
            al == a@.len(),
            al == b@.len(),
            all == (forall|j2: int|
                0 <= j2 < j ==> spec_lower_code(a@[j2]) == spec_lower_code(b@[j2])),
        decreases al - j,
    {
        if lower_code(a.get_char(j)) != lower_code(b.get_char(j)) {
            all = false;
        }
        j = j + 1;
    }
    all
}

} // verus!
