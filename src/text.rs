//! Text normalisation for cache keys and policy checks.
use vstd::prelude::*;
use vstd::string::StrSliceExecFns;

verus! {

/// What `str::to_lowercase` makes of a text.
pub uninterp spec fn lower_of(s: Seq<char>) -> Seq<char>;

/// What `str::trim` leaves of a text.
pub uninterp spec fn trim_of(s: Seq<char>) -> Seq<char>;

/// Relies on std's `str::to_lowercase`: the result depends on the characters
/// alone.
#[verifier::external_body]
fn lowercase(s: &str) -> (r: String)
    ensures
        r@ == lower_of(s@),
{
    s.to_lowercase()
}

/// Relies on std's `str::trim`: the result depends on the characters alone.
#[verifier::external_body]
fn trim(s: &str) -> (r: &str)
    ensures
        r@ == trim_of(s@),
{
    s.trim()
}

/// A text with surrounding whitespace removed and letters in lower case.
pub open spec fn normalized(s: Seq<char>) -> Seq<char> {
    lower_of(trim_of(s))
}

pub fn normalize(s: &str) -> (r: String)
    ensures
        r@ == normalized(s@),
{
    lowercase(trim(s))
}

/// `suffix` stands at the end of `s`.
pub open spec fn has_suffix(s: Seq<char>, suffix: Seq<char>) -> bool {
    suffix.len() <= s.len() && s.subrange(s.len() - suffix.len(), s.len() as int) == suffix
}

/// `s` ends with a comma followed by `parent`.
pub open spec fn ends_with_rdn_of(s: Seq<char>, parent: Seq<char>) -> bool {
    has_suffix(s, seq![','] + parent)
}

pub fn ends_with_comma_then(s: &str, parent: &str) -> (r: bool)
    ensures
        r == ends_with_rdn_of(s@, parent@),
{
    let n = s.unicode_len();
    let m = parent.unicode_len();
    let ghost suffix = seq![','] + parent@;
    if m >= n {
        return false;
    }
    let start = n - m;
    if s.get_char(start - 1) != ',' {
        proof {
            assert(s@.subrange(s@.len() - suffix.len(), s@.len() as int)[0] != suffix[0]);
        }
        return false;
    }
    let mut i: usize = 0;
    while i < m
        invariant
            m == parent@.len(),
            n == s@.len(),
            suffix == seq![','] + parent@,
            s@[start - 1] == ',',
            start == n - m,
            m < n,
            i <= m,
            forall|j: int| 0 <= j < i ==> s@[start + j] == parent@[j],
        decreases m - i,
    {
        if s.get_char(start + i) != parent.get_char(i) {
            proof {
                let tail = s@.subrange(s@.len() - suffix.len(), s@.len() as int);
                assert(tail[i + 1] != suffix[i + 1]);
            }
            return false;
        }
        i = i + 1;
    }
    proof {
        let tail = s@.subrange(s@.len() - suffix.len(), s@.len() as int);
        assert(tail =~= suffix);
    }
    true
}

} // verus!
