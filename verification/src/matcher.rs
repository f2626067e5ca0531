//! The matcher: decides whether a single line matches a query under a
//! case-sensitivity mode. A query is a literal substring, never a pattern;
//! an empty query matches every line.
use vstd::prelude::*;
use vstd::string::StrSliceExecFns;

verus! {

/// Case-sensitivity policy, fixed for a whole scan.
#[derive(Clone, Copy, Debug, PartialEq, Eq, Structural)]
pub enum CaseMode {
    Sensitive,
    Insensitive,
}

/// `needle` occurs somewhere in `hay` as a contiguous run of characters.
pub open spec fn seq_contains(hay: Seq<char>, needle: Seq<char>) -> bool {
    exists|i: int|
        0 <= i && i + needle.len() <= hay.len() && #[trigger] hay.subrange(i, i + needle.len())
            == needle
}

/// The lower-casing of a piece of text; what it is on given characters is
/// known only through `lowercase` below.
pub uninterp spec fn lower_of(s: Seq<char>) -> Seq<char>;

/// A line matches a query: in sensitive mode the line holds the query
/// verbatim, in insensitive mode the lower-cased line holds the lower-cased
/// query.
pub open spec fn spec_line_match(query: Seq<char>, line: Seq<char>, mode: CaseMode) -> bool {
    match mode {
        CaseMode::Sensitive => seq_contains(line, query),
        CaseMode::Insensitive => seq_contains(lower_of(line), lower_of(query)),
    }
}

/// An empty needle occurs in every text.
pub proof fn lemma_contains_empty(hay: Seq<char>, needle: Seq<char>)
    requires
        needle.len() == 0,
    ensures
        seq_contains(hay, needle),
{
    assert(hay.subrange(0, 0 + needle.len() as int) =~= needle);
}

/// Relies on str::to_lowercase: the result depends on the input characters
/// alone, and an empty string lower-cases to an empty string.
#[verifier::external_body]
fn lowercase(s: &str) -> (r: String)
    ensures
        r@ == lower_of(s@),
        s@.len() == 0 ==> r@.len() == 0,
{
    s.to_lowercase()
}

/// The characters of `s`, in order, as a vector.
fn to_chars(s: &str) -> (v: Vec<char>)
    ensures
        v@ == s@,
{
    let n = s.unicode_len();
    let mut v: Vec<char> = Vec::new();
    let mut i: usize = 0;
    while i < n
        invariant
            i <= n,
            n == s@.len(),
            v@ == s@.take(i as int),
        decreases n - i,
    {
        let c = s.get_char(i);
        v.push(c);
        proof {
            assert(v@ =~= s@.take(i + 1));
        }
        i += 1;
    }
    proof {
        assert(s@.take(n as int) =~= s@);
    }
    v
}

/// `needle` stands at position `at` of `hay`.
fn match_at(hay: &Vec<char>, needle: &Vec<char>, at: usize) -> (b: bool)
    requires
        at + needle@.len() <= hay@.len(),
    ensures
        b == (hay@.subrange(at as int, at + needle@.len()) == needle@),
{
    let hay_len = hay.len();
    let mut j: usize = 0;
    while j < needle.len()
        invariant
            at + needle@.len() <= hay@.len(),
            hay@.len() == hay_len,
            j <= needle@.len(),
            forall|k: int| 0 <= k < j ==> hay@[at + k] == needle@[k],
        decreases needle@.len() - j,
    {
        assert(at + j < hay@.len());
        if hay[at + j] != needle[j] {
            proof {
                assert(hay@.subrange(at as int, at + needle@.len())[j as int] != needle@[
                    j as int
                ]);
            }
            return false;
        }
        j += 1;
    }
    proof {
        assert(hay@.subrange(at as int, at + needle@.len()) =~= needle@);
    }
    true
}

/// Substring search over character vectors.
fn contains_chars(hay: &Vec<char>, needle: &Vec<char>) -> (b: bool)
    ensures
        b == seq_contains(hay@, needle@),
{
    if needle.len() > hay.len() {
        return false;
    }
    if needle.len() == 0 {
        proof {
            lemma_contains_empty(hay@, needle@);
        }
        return true;
    }
    let last = hay.len() - needle.len();
    let mut i: usize = 0;
    while i <= last
        invariant
            1 <= needle@.len() <= hay@.len(),
            hay@.len() <= usize::MAX,
            last == hay@.len() - needle@.len(),
            i <= last + 1,
            forall|p: int|
                0 <= p < i ==> #[trigger] hay@.subrange(p, p + needle@.len()) != needle@,
        decreases last + 1 - i,
    {
        if match_at(hay, needle, i) {
            assert(seq_contains(hay@, needle@));
            return true;
        }
        i += 1;
    }
    false
}

/// Decides whether `line` matches `query` under `mode`. Case-sensitive: true
/// iff the line holds the query as an exact substring. Case-insensitive: true
/// iff the lower-cased line holds the lower-cased query. An empty query
/// matches every line.
pub fn line_matches(query: &str, line: &str, mode: CaseMode) -> (b: bool)
    ensures
        b == spec_line_match(query@, line@, mode),
        query@.len() == 0 ==> b,
{
    match mode {
        CaseMode::Sensitive => {
            let hay = to_chars(line);
            let needle = to_chars(query);
            let b = contains_chars(&hay, &needle);
            proof {
                if query@.len() == 0 {
                    lemma_contains_empty(line@, query@);
                }
            }
            b
        },
        CaseMode::Insensitive => {
            let lowered_query = lowercase(query);
            let lowered_line = lowercase(line);
            let hay = to_chars(lowered_line.as_str());
            let needle = to_chars(lowered_query.as_str());
            let b = contains_chars(&hay, &needle);
            proof {
                if query@.len() == 0 {
                    lemma_contains_empty(lower_of(line@), lowered_query@);
                }
            }
            b
        },
    }
}

} // verus!
