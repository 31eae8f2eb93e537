//! Validation of preprint identifiers.
//!
//! Two forms are accepted, each matched against the whole input:
//! - legacy: `category[.-]subcategory/NNNNNNN[vK]`, e.g. `hep-th/9901001`;
//! - modern: `YYMM.NNNN[vK]` or `YYMM.NNNNN[vK]`, e.g. `0704.0001`.
use vstd::prelude::*;

verus! {

pub open spec fn is_digit(c: char) -> bool {
    '0' <= c && c <= '9'
}

/// A character of a category or subcategory name.
pub open spec fn is_word_char(c: char) -> bool {
    is_digit(c) || ('a' <= c && c <= 'z') || ('A' <= c && c <= 'Z') || c == '_'
}

pub open spec fn all_digits(s: Seq<char>) -> bool {
    forall|k: int| 0 <= k < s.len() ==> is_digit(#[trigger] s[k])
}

/// A non-empty run of word characters.
pub open spec fn is_word(s: Seq<char>) -> bool {
    s.len() > 0 && forall|k: int| 0 <= k < s.len() ==> is_word_char(#[trigger] s[k])
}

/// An optional version: nothing, or `v` followed by one or more digits.
pub open spec fn is_version_suffix(s: Seq<char>) -> bool {
    s.len() == 0 || (s.len() >= 2 && s[0] == 'v' && all_digits(s.subrange(1, s.len() as int)))
}

/// `YYMM.` followed by a sequence number of `n` digits and an optional version.
pub open spec fn is_modern_with(s: Seq<char>, n: int) -> bool {
    5 + n <= s.len() && all_digits(s.subrange(0, 4)) && s[4] == '.' && all_digits(
        s.subrange(5, 5 + n),
    ) && is_version_suffix(s.subrange(5 + n, s.len() as int))
}

pub open spec fn is_modern_id(s: Seq<char>) -> bool {
    is_modern_with(s, 4) || is_modern_with(s, 5)
}

/// `s` reads as a legacy identifier whose separator stands at `i` and whose
/// slash stands at `j`.
pub open spec fn is_legacy_split(s: Seq<char>, i: int, j: int) -> bool {
    0 < i && i < j && j + 8 <= s.len() && is_word(s.subrange(0, i)) && (s[i] == '.' || s[i]
        == '-') && is_word(s.subrange(i + 1, j)) && s[j] == '/' && all_digits(
        s.subrange(j + 1, j + 8),
    ) && is_version_suffix(s.subrange(j + 8, s.len() as int))
}

pub open spec fn is_legacy_id(s: Seq<char>) -> bool {
    exists|i: int, j: int| is_legacy_split(s, i, j)
}

pub open spec fn is_arxiv_id(s: Seq<char>) -> bool {
    is_legacy_id(s) || is_modern_id(s)
}

fn is_digit_char(c: char) -> (r: bool)
    ensures
        r == is_digit(c),
{
    '0' <= c && c <= '9'
}

fn is_name_char(c: char) -> (r: bool)
    ensures
        r == is_word_char(c),
{
    ('0' <= c && c <= '9') || ('a' <= c && c <= 'z') || ('A' <= c && c <= 'Z') || c == '_'
}

fn digits_between(cs: &Vec<char>, lo: usize, hi: usize) -> (r: bool)
    requires
        lo <= hi <= cs@.len(),
    ensures
        r == all_digits(cs@.subrange(lo as int, hi as int)),
{
    let mut k: usize = lo;
    while k < hi
        invariant
            lo <= k <= hi <= cs@.len(),
            forall|m: int| lo <= m < k ==> is_digit(#[trigger] cs@[m]),
        decreases hi - k,
    {
        if !is_digit_char(cs[k]) {
            assert(cs@.subrange(lo as int, hi as int)[k - lo] == cs@[k as int]);
            return false;
        }
        k = k + 1;
    }
    assert forall|m: int| 0 <= m < hi - lo implies is_digit(
        #[trigger] cs@.subrange(lo as int, hi as int)[m],
    ) by {
        assert(cs@.subrange(lo as int, hi as int)[m] == cs@[lo + m]);
    }
    true
}

fn word_between(cs: &Vec<char>, lo: usize, hi: usize) -> (r: bool)
    requires
        lo <= hi <= cs@.len(),
    ensures
        r == is_word(cs@.subrange(lo as int, hi as int)),
{
    if lo == hi {
        return false;
    }
    let mut k: usize = lo;
    while k < hi
        invariant
            lo <= k <= hi <= cs@.len(),
            forall|m: int| lo <= m < k ==> is_word_char(#[trigger] cs@[m]),
        decreases hi - k,
    {
        if !is_name_char(cs[k]) {
            assert(cs@.subrange(lo as int, hi as int)[k - lo] == cs@[k as int]);
            return false;
        }
        k = k + 1;
    }
    assert forall|m: int| 0 <= m < hi - lo implies is_word_char(
        #[trigger] cs@.subrange(lo as int, hi as int)[m],
    ) by {
        assert(cs@.subrange(lo as int, hi as int)[m] == cs@[lo + m]);
    }
    true
}

fn version_from(cs: &Vec<char>, lo: usize) -> (r: bool)
    requires
        lo <= cs@.len(),
    ensures
        r == is_version_suffix(cs@.subrange(lo as int, cs@.len() as int)),
{
    let n = cs.len();
    let ghost rest = cs@.subrange(lo as int, n as int);
    if lo == n {
        return true;
    }
    if n - lo < 2 || cs[lo] != 'v' {
        return false;
    }
    let r = digits_between(cs, lo + 1, n);
    assert(rest.subrange(1, rest.len() as int) =~= cs@.subrange(lo + 1, n as int));
    r
}

fn matches_modern_with(cs: &Vec<char>, n: usize) -> (r: bool)
    requires
        n == 4 || n == 5,
    ensures
        r == is_modern_with(cs@, n as int),
{
    let len = cs.len();
    if len < 5 + n {
        return false;
    }
    digits_between(cs, 0, 4) && cs[4] == '.' && digits_between(cs, 5, 5 + n) && version_from(
        cs,
        5 + n,
    )
}

fn matches_modern(cs: &Vec<char>) -> (r: bool)
    ensures
        r == is_modern_id(cs@),
{
    matches_modern_with(cs, 4) || matches_modern_with(cs, 5)
}

/// What a legacy split says of single positions: no slash before `j`, and
/// only word characters before `i`.
proof fn lemma_legacy_split_positions(s: Seq<char>, i: int, j: int)
    requires
        is_legacy_split(s, i, j),
    ensures
        forall|k: int| 0 <= k < i ==> is_word_char(#[trigger] s[k]),
        !is_word_char(s[i]),
        forall|k: int| 0 <= k < j ==> #[trigger] s[k] != '/',
        s[j] == '/',
{
    assert forall|k: int| 0 <= k < i implies is_word_char(#[trigger] s[k]) by {
        assert(s.subrange(0, i)[k] == s[k]);
    }
    assert forall|k: int| 0 <= k < j implies #[trigger] s[k] != '/' by {
        if k < i {
            assert(s.subrange(0, i)[k] == s[k]);
        } else if i < k {
            assert(s.subrange(i + 1, j)[k - i - 1] == s[k]);
        }
    }
}

fn matches_legacy(cs: &Vec<char>) -> (r: bool)
    ensures
        r == is_legacy_id(cs@),
{
    let n = cs.len();
    let mut j: usize = 0;
    while j < n && cs[j] != '/'
        invariant
            j <= n == cs@.len(),
            forall|k: int| 0 <= k < j ==> #[trigger] cs@[k] != '/',
        decreases n - j,
    {
        j = j + 1;
    }
    if j == n {
        proof {
            assert forall|a: int, b: int| !is_legacy_split(cs@, a, b) by {
                if is_legacy_split(cs@, a, b) {
                    lemma_legacy_split_positions(cs@, a, b);
                }
            }
        }
        return false;
    }
    let mut i: usize = 0;
    while i < j && is_name_char(cs[i])
        invariant
            i <= j < n == cs@.len(),
            forall|k: int| 0 <= k < i ==> is_word_char(#[trigger] cs@[k]),
        decreases j - i,
    {
        i = i + 1;
    }
    let r = 0 < i && i < j && n - j >= 8 && (cs[i] == '.' || cs[i] == '-') && word_between(
        cs,
        0,
        i,
    ) && word_between(cs, i + 1, j) && digits_between(cs, j + 1, j + 8) && version_from(
        cs,
        j + 8,
    );
    proof {
        if r {
            assert(is_legacy_split(cs@, i as int, j as int));
        } else {
            assert forall|a: int, b: int| !is_legacy_split(cs@, a, b) by {
                if is_legacy_split(cs@, a, b) {
                    lemma_legacy_split_positions(cs@, a, b);
                    assert(b == j);
                    assert(a == i);
                }
            }
        }
    }
    r
}

/// The characters of `s`, in order.
fn chars_of(s: &str) -> (r: Vec<char>)
    ensures
        r@ == s@,
{
    let n = s.unicode_len();
    let mut r: Vec<char> = Vec::new();
    let mut k: usize = 0;
    while k < n
        invariant
            k <= n == s@.len(),
            r@ == s@.subrange(0, k as int),
        decreases n - k,
    {
        r.push(s.get_char(k));
        k = k + 1;
    }
    r
}

/// Whether `string` is a whole preprint identifier, legacy or modern.
pub fn match_arxiv_id(string: &str) -> (r: bool)
    ensures
        r == is_arxiv_id(string@),
{
    let cs = chars_of(string);
    matches_legacy(&cs) || matches_modern(&cs)
}

/// Every string of the legacy or the modern form is accepted.
pub proof fn lemma_well_formed_ids_accepted(s: Seq<char>)
    requires
        is_legacy_id(s) || is_modern_id(s),
    ensures
        is_arxiv_id(s),
{
}

/// A string in which no `/` and no `.` is followed by a digit is rejected:
/// both forms need one of them.
pub proof fn lemma_without_digit_separator_rejected(s: Seq<char>)
    requires
        forall|k: int|
            0 <= k < s.len() - 1 && (#[trigger] s[k] == '/' || s[k] == '.') ==> !is_digit(
                s[k + 1],
            ),
    ensures
        !is_arxiv_id(s),
{
    assert forall|i: int, j: int| !is_legacy_split(s, i, j) by {
        if is_legacy_split(s, i, j) {
            assert(s.subrange(j + 1, j + 8)[0] == s[j + 1]);
        }
    }
    if is_modern_with(s, 4) {
        assert(s.subrange(5, 9)[0] == s[5]);
    }
    if is_modern_with(s, 5) {
        assert(s.subrange(5, 10)[0] == s[5]);
    }
}

} // verus!
