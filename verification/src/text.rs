//! Text helpers: whitespace classification, trimming, lowercasing and
//! character-wise string equality.

use vstd::prelude::*;

verus! {

/// The Unicode `White_Space` code points, the set that `trim` strips from
/// the ends of a string.
pub open spec fn is_unicode_space(c: char) -> bool {
    let u = c as u32;
    (0x9 <= u && u <= 0xD) || u == 0x20 || u == 0x85 || u == 0xA0 || u == 0x1680
        || (0x2000 <= u && u <= 0x200A) || u == 0x2028 || u == 0x2029 || u == 0x202F
        || u == 0x205F || u == 0x3000
}

/// Decides `is_unicode_space`.
pub fn is_space_char(c: char) -> (r: bool)
    ensures
        r == is_unicode_space(c),
{
    let u = c as u32;
    (0x9 <= u && u <= 0xD) || u == 0x20 || u == 0x85 || u == 0xA0 || u == 0x1680
        || (0x2000 <= u && u <= 0x200A) || u == 0x2028 || u == 0x2029 || u == 0x202F
        || u == 0x205F || u == 0x3000
}

/// How many whitespace characters the string starts with.
pub open spec fn leading_spaces(s: Seq<char>) -> int
    decreases s.len(),
{
    if s.len() == 0 {
        0
    } else if !is_unicode_space(s[0]) {
        0
    } else {
        1 + leading_spaces(s.drop_first())
    }
}

/// How many whitespace characters the string ends with.
pub open spec fn trailing_spaces(s: Seq<char>) -> int
    decreases s.len(),
{
    if s.len() == 0 {
        0
    } else if !is_unicode_space(s.last()) {
        0
    } else {
        1 + trailing_spaces(s.drop_last())
    }
}

/// The string with leading and trailing whitespace removed.
pub open spec fn spec_trim(s: Seq<char>) -> Seq<char> {
    if leading_spaces(s) == s.len() {
        Seq::empty()
    } else {
        s.subrange(leading_spaces(s), s.len() - trailing_spaces(s))
    }
}

/// `leading_spaces` is exactly the length of the whitespace prefix: it is
/// pinned down by any index bounding that prefix.
pub proof fn lemma_leading_spaces_from(s: Seq<char>, j: int)
    requires
        0 <= j <= s.len(),
        forall|k: int| 0 <= k < j ==> is_unicode_space(s[k]),
        j < s.len() ==> !is_unicode_space(s[j]),
    ensures
        leading_spaces(s) == j,
    decreases s.len(),
{
    if j == 0 {
    } else {
        lemma_leading_spaces_from(s.drop_first(), j - 1);
    }
}

/// `trailing_spaces` is exactly the length of the whitespace suffix.
pub proof fn lemma_trailing_spaces_from(s: Seq<char>, j: int)
    requires
        0 <= j <= s.len(),
        forall|k: int| s.len() - j <= k < s.len() ==> is_unicode_space(s[k]),
        j < s.len() ==> !is_unicode_space(s[s.len() - j - 1]),
    ensures
        trailing_spaces(s) == j,
    decreases s.len(),
{
    if j == 0 {
    } else {
        lemma_trailing_spaces_from(s.drop_last(), j - 1);
    }
}

/// A string without any whitespace character is left unchanged by `trim`.
/// In particular a freshly generated key, once written to the key file,
/// reads back to the very same key.
pub proof fn lemma_trim_of_unpadded(s: Seq<char>)
    requires
        forall|i: int| 0 <= i < s.len() ==> !is_unicode_space(s[i]),
    ensures
        spec_trim(s) == s,
{
    lemma_leading_spaces_from(s, 0);
    lemma_trailing_spaces_from(s, 0);
    assert(spec_trim(s) =~= s);
}

/// Returns the slice of `s` with surrounding whitespace removed, as
/// `str::trim` would.
pub fn trim_spaces<'a>(s: &'a str) -> (r: &'a str)
    ensures
        r@ == spec_trim(s@),
{
    let n = s.unicode_len();
    let mut start: usize = 0;
    while start < n && is_space_char(s.get_char(start))
        invariant
            n == s@.len(),
            0 <= start <= n,
            forall|k: int| 0 <= k < start ==> is_unicode_space(s@[k]),
        decreases n - start,
    {
        start += 1;
    }
    let mut end: usize = n;
    while end > start && is_space_char(s.get_char(end - 1))
        invariant
            n == s@.len(),
            0 <= start <= end <= n,
            forall|k: int| 0 <= k < start ==> is_unicode_space(s@[k]),
            start < n ==> !is_unicode_space(s@[start as int]),
            forall|k: int| end <= k < n ==> is_unicode_space(s@[k]),
        decreases end,
    {
        end -= 1;
    }
    proof {
        lemma_leading_spaces_from(s@, start as int);
        if start == n {
            assert(s@.subrange(start as int, end as int) =~= Seq::<char>::empty());
        } else {
            assert(end > start);
            lemma_trailing_spaces_from(s@, n - end);
        }
    }
    s.substring_char(start, end)
}

/// The result that `str::to_lowercase` returns for a given character
/// sequence; it depends on the characters alone.
pub uninterp spec fn lower_of(s: Seq<char>) -> Seq<char>;

/// Relies on `str::to_lowercase`: the Unicode lowercase form of the
/// string, a function of its characters alone.
#[verifier::external_body]
pub(crate) fn to_lower(s: &str) -> (r: String)
    ensures
        r@ == lower_of(s@),
{
    s.to_lowercase()
}

/// Character-wise string equality, which decides equality of the views.
pub fn str_eq(a: &str, b: &str) -> (r: bool)
    ensures
        r == (a@ == b@),
{
    let n = a.unicode_len();
    let m = b.unicode_len();
    if n != m {
        return false;
    }
    let mut i: usize = 0;
    while i < n
        invariant
            n == a@.len(),
            n == b@.len(),
            0 <= i <= n,
            forall|k: int| 0 <= k < i ==> a@[k] == b@[k],
        decreases n - i,
    {
        if a.get_char(i) != b.get_char(i) {
            return false;
        }
        i += 1;
    }
    proof {
        assert(a@ =~= b@);
    }
    true
}

} // verus!
