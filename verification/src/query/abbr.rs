use vstd::prelude::*;

use crate::error::Error;

verus! {

/// A validated user pattern for one path component: either literal text
/// (stored ASCII-lowercased) or the wildcard marker `-`.
#[derive(Debug, Clone)]
pub enum Abbr {
    Literal(String),
    Wildcard,
}

/// How well an abbreviation matched one candidate component name.
/// `Complete` is an exact (case-folded) match, `Wildcard` comes only from a
/// wildcard abbreviation, and `Partial` carries the edit distance between the
/// literal and the candidate, used to rank partial matches (lower is better).
#[derive(Debug, Clone, PartialEq, Eq, Structural)]
pub enum Congruence {
    Partial(usize),
    Wildcard,
    Complete,
}

/// The spec-level shape of an abbreviation: the stored literal as a
/// character sequence, or the wildcard marker.
pub enum AbbrView {
    Literal(Seq<char>),
    Wildcard,
}

impl View for Abbr {
    type V = AbbrView;

    open spec fn view(&self) -> AbbrView {
        match self {
            Abbr::Literal(s) => AbbrView::Literal(s@),
            Abbr::Wildcard => AbbrView::Wildcard,
        }
    }
}

/// The characters a pattern may consist of: ASCII letters, digits,
/// `-`, `_` and `.`.
pub open spec fn is_valid_char(c: char) -> bool {
    ||| c == '-'
    ||| c == '_'
    ||| c == '.'
    ||| 'a' as u32 <= c as u32 && c as u32 <= 'z' as u32
    ||| 'A' as u32 <= c as u32 && c as u32 <= 'Z' as u32
    ||| '0' as u32 <= c as u32 && c as u32 <= '9' as u32
}

/// ASCII case folding of one character: `A`..`Z` map to `a`..`z`,
/// everything else is left unchanged.
pub open spec fn fold_char(c: char) -> char {
    if 'A' as u32 <= c as u32 && c as u32 <= 'Z' as u32 {
        (c as u32 + 32) as char
    } else {
        c
    }
}

/// ASCII case folding of a whole character sequence.
pub open spec fn fold(s: Seq<char>) -> Seq<char> {
    s.map_values(|c: char| fold_char(c))
}

pub open spec fn all_chars_valid(s: Seq<char>) -> bool {
    forall|i: int| 0 <= i < s.len() ==> is_valid_char(#[trigger] s[i])
}

pub open spec fn all_dots(s: Seq<char>) -> bool {
    forall|i: int| 0 <= i < s.len() ==> #[trigger] s[i] == '.'
}

/// A pattern accepted as a literal: non-empty, drawn from the allowed
/// character set, and not composed solely of `.` characters (those are
/// reserved for filesystem navigation tokens).
pub open spec fn valid_pattern(s: Seq<char>) -> bool {
    s.len() > 0 && all_chars_valid(s) && !all_dots(s)
}

/// The single reserved wildcard token `-`.
pub open spec fn is_wildcard_token(s: Seq<char>) -> bool {
    s == seq!['-']
}

/// The characters of `a` occur in order (though not necessarily
/// contiguously) within `b`, phrased as the greedy left-to-right scan:
/// each character of `b` either consumes the next pending character of `a`
/// or is skipped.
pub open spec fn subseq_of(a: Seq<char>, b: Seq<char>) -> bool
    decreases b.len(),
{
    if a.len() == 0 {
        true
    } else if b.len() == 0 {
        false
    } else if a[0] == b[0] {
        subseq_of(a.skip(1), b.skip(1))
    } else {
        subseq_of(a, b.skip(1))
    }
}

/// Levenshtein distance: the least number of single-character insertions,
/// deletions and substitutions that turn `a` into `b`.
pub open spec fn edit_distance(a: Seq<char>, b: Seq<char>) -> int
    decreases a.len() + b.len(),
{
    if a.len() == 0 {
        b.len() as int
    } else if b.len() == 0 {
        a.len() as int
    } else {
        let delete = edit_distance(a.skip(1), b) + 1;
        let insert = edit_distance(a, b.skip(1)) + 1;
        let keep_or_substitute = edit_distance(a.skip(1), b.skip(1)) + (
        if a[0] == b[0] {
            0int
        } else {
            1int
        });
        vstd::math::min(vstd::math::min(delete, insert), keep_or_substitute)
    }
}

/// Relies on `strsim::levenshtein`: it returns the minimum number of
/// single-character insertions, deletions and substitutions required to
/// change one string into the other, computed over the strings' characters.
#[verifier::external_body]
fn levenshtein(a: &str, b: &str) -> (r: usize)
    ensures
        r == edit_distance(a@, b@),
{
    strsim::levenshtein(a, b)
}

/// Relies on `str::to_ascii_lowercase`: every character of the returned copy
/// is the ASCII lower-case equivalent of the corresponding original one.
#[verifier::external_body]
fn fold_str(s: &str) -> (r: String)
    ensures
        r@ == fold(s@),
{
    s.to_ascii_lowercase()
}

/// Whether `c` may occur in a pattern.
fn check_char(c: char) -> (r: bool)
    ensures
        r == is_valid_char(c),
{
    let u = c as u32;
    c == '-' || c == '_' || c == '.' || ('a' as u32 <= u && u <= 'z' as u32) || ('A' as u32 <= u
        && u <= 'Z' as u32) || ('0' as u32 <= u && u <= '9' as u32)
}

/// Whether `pattern` is exactly the reserved wildcard token `-`.
fn is_wildcard(pattern: &String) -> (r: bool)
    ensures
        r == is_wildcard_token(pattern@),
{
    let r = pattern.as_str().unicode_len() == 1 && pattern.as_str().get_char(0) == '-';
    proof {
        if r {
            assert(pattern@ =~= seq!['-']);
        } else {
            assert(pattern@ != seq!['-']) by {
                if pattern@ == seq!['-'] {
                    assert(pattern@.len() == 1);
                }
            }
        }
    }
    r
}

/// The greedy left-to-right subsequence scan of `compare`: walk `cand` once,
/// consuming the next pending character of `pat` whenever it is seen; report
/// whether all of `pat` was consumed.
fn is_subsequence(pat: &str, cand: &str) -> (r: bool)
    ensures
        r == subseq_of(pat@, cand@),
{
    let plen = pat.unicode_len();
    let clen = cand.unicode_len();
    let mut i: usize = 0;
    let mut j: usize = 0;
    proof {
        assert(pat@.skip(0) =~= pat@);
        assert(cand@.skip(0) =~= cand@);
    }
    while i < clen && j < plen
        invariant
            0 <= j <= plen,
            0 <= i <= clen,
            plen == pat@.len(),
            clen == cand@.len(),
            subseq_of(pat@, cand@) == subseq_of(pat@.skip(j as int), cand@.skip(i as int)),
        decreases clen - i,
    {
        let pc = pat.get_char(j);
        let cc = cand.get_char(i);
        proof {
            assert(pat@.skip(j as int)[0] == pc);
            assert(cand@.skip(i as int)[0] == cc);
            assert(cand@.skip(i as int).skip(1) =~= cand@.skip(i as int + 1));
            assert(pat@.skip(j as int).skip(1) =~= pat@.skip(j as int + 1));
        }
        if pc == cc {
            j += 1;
        }
        i += 1;
    }
    proof {
        if j == plen {
            assert(pat@.skip(plen as int).len() == 0);
        } else {
            assert(cand@.skip(clen as int).len() == 0);
            assert(pat@.skip(j as int).len() > 0);
        }
    }
    j == plen
}

/// The classification `compare` must return: a wildcard abbreviation always
/// matches; a literal matches completely when it equals the case-folded
/// candidate, partially (ranked by edit distance, lower is better) when it
/// is a subsequence of it without equalling it, and not at all otherwise.
pub open spec fn spec_compare(a: AbbrView, c: Seq<char>) -> Option<Congruence> {
    match a {
        AbbrView::Wildcard => Some(Congruence::Wildcard),
        AbbrView::Literal(lit) => {
            let folded = fold(c);
            if lit == folded {
                Some(Congruence::Complete)
            } else if subseq_of(lit, folded) {
                Some(Congruence::Partial(edit_distance(lit, folded) as usize))
            } else {
                None
            }
        },
    }
}

impl Abbr {
    /// Parse one user-supplied pattern token.
    ///
    /// The reserved token `-` becomes `Wildcard`; any other token is accepted
    /// exactly when it is non-empty, drawn from `[A-Za-z0-9._-]` and not
    /// composed solely of dots, and is then stored ASCII-lowercased as
    /// `Literal`. Every rejected token is handed back inside the error.
    pub fn from_string(pattern: String) -> (r: Result<Abbr, Error>)
        ensures
            is_wildcard_token(pattern@) ==> r == Ok::<Abbr, Error>(Abbr::Wildcard),
            !is_wildcard_token(pattern@) && valid_pattern(pattern@) ==> (r matches Ok(a)
                && a matches Abbr::Literal(lit) && lit@ == fold(pattern@)),
            !is_wildcard_token(pattern@) && !valid_pattern(pattern@) ==> (r matches Err(e)
                && e matches Error::InvalidAbbr(raw) && raw@ == pattern@),
    {
        if is_wildcard(&pattern) {
            Ok(Abbr::Wildcard)
        } else {
            let n = pattern.as_str().unicode_len();
            if n == 0 {
                return Err(Error::InvalidAbbr(pattern));
            }
            let mut i: usize = 0;
            let mut dots_only = true;
            while i < n
                invariant
                    0 <= i <= n,
                    n == pattern@.len(),
                    forall|k: int| 0 <= k < i ==> is_valid_char(#[trigger] pattern@[k]),
                    dots_only <==> (forall|k: int| 0 <= k < i ==> #[trigger] pattern@[k] == '.'),
                decreases n - i,
            {
                let c = pattern.as_str().get_char(i);
                if !check_char(c) {
                    return Err(Error::InvalidAbbr(pattern));
                }
                if c != '.' {
                    dots_only = false;
                }
                i += 1;
            }
            if dots_only {
                return Err(Error::InvalidAbbr(pattern));
            }
            let folded = fold_str(pattern.as_str());
            Ok(Abbr::Literal(folded))
        }
    }

    /// Classify how well this abbreviation matches the candidate component
    /// name `component`; comparison is case-insensitive via ASCII folding.
    ///
    /// The result is pinned by `spec_compare`, a function of the abbreviation
    /// and the candidate alone: comparison is pure and deterministic.
    pub fn compare(&self, component: &str) -> (r: Option<Congruence>)
        ensures
            r == spec_compare(self@, component@),
    {
        match self {
            Abbr::Literal(literal) => {
                let folded = fold_str(component);
                if *literal == folded {
                    Some(Congruence::Complete)
                } else if is_subsequence(literal.as_str(), folded.as_str()) {
                    let distance = levenshtein(literal.as_str(), folded.as_str());
                    Some(Congruence::Partial(distance))
                } else {
                    None
                }
            },
            Abbr::Wildcard => Some(Congruence::Wildcard),
        }
    }
}

/// Comparison is deterministic: any two results that `compare`'s contract
/// admits for the same abbreviation and the same candidate are equal, so
/// repeated calls with identical arguments return identical results.
pub proof fn lemma_compare_deterministic(
    a: Abbr,
    c: Seq<char>,
    r1: Option<Congruence>,
    r2: Option<Congruence>,
)
    requires
        r1 == spec_compare(a@, c),
        r2 == spec_compare(a@, c),
    ensures
        r1 == r2,
{
}

/// Folding changes only upper-case letters: it is idempotent, keeps a
/// character inside the allowed set, and maps no other character to a dot
/// or to the wildcard character.
proof fn lemma_fold_char(c: char)
    ensures
        fold_char(fold_char(c)) == fold_char(c),
        is_valid_char(c) ==> is_valid_char(fold_char(c)),
        (fold_char(c) == '.') == (c == '.'),
        (fold_char(c) == '-') == (c == '-'),
{
}

/// The stored literal of a `Literal` abbreviation is stable under
/// re-validation: a pattern accepted as a literal stays, once folded, a
/// non-wildcard valid pattern, and folding it again changes nothing. With
/// the contract of `from_string` this means that parsing the stored literal
/// of a successfully parsed pattern yields the identical abbreviation.
pub proof fn lemma_literal_round_trip(s: Seq<char>)
    requires
        !is_wildcard_token(s),
        valid_pattern(s),
    ensures
        !is_wildcard_token(fold(s)),
        valid_pattern(fold(s)),
        fold(fold(s)) == fold(s),
{
    assert(fold(s).len() == s.len());
    assert forall|i: int| 0 <= i < fold(s).len() implies is_valid_char(#[trigger] fold(s)[i]) by {
        assert(is_valid_char(s[i]));
        lemma_fold_char(s[i]);
    }
    assert(exists|i: int| 0 <= i < s.len() && s[i] != '.');
    let w = choose|i: int| 0 <= i < s.len() && s[i] != '.';
    lemma_fold_char(s[w]);
    assert(fold(s)[w] != '.');
    assert(!all_dots(fold(s)));
    if fold(s) == seq!['-'] {
        assert(fold(s).len() == 1);
        assert(fold(s)[0] == '-');
        lemma_fold_char(s[0]);
        assert(s =~= seq!['-']);
    }
    assert(fold(fold(s)) =~= fold(s)) by {
        assert forall|i: int| 0 <= i < s.len() implies #[trigger] fold(fold(s))[i] == fold(s)[i] by {
            lemma_fold_char(s[i]);
        }
    }
}

} // verus!
