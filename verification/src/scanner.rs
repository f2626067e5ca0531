//! The line scanner: splits a text into logical lines, applies the matcher to
//! every line, and produces the ordered match records of one file.
use vstd::prelude::*;
use vstd::string::StrSliceExecFns;
use vstd::string::StringExecFns;
use crate::matcher::CaseMode;
use crate::matcher::line_matches;
use crate::matcher::spec_line_match;
use crate::config::Config;
use crate::GrepOccourence;
use crate::GrepResult;

verus! {

/// One logical line with its terminator removed: the carriage return that
/// stood directly before the newline is dropped as well.
pub open spec fn strip_cr(line: Seq<char>) -> Seq<char> {
    if line.len() > 0 && line.last() == '\r' {
        line.drop_last()
    } else {
        line
    }
}

/// The logical lines of `text` when the characters of `cur` have already been
/// read from the current line: helper for `spec_lines`.
pub open spec fn lines_from(text: Seq<char>, cur: Seq<char>) -> Seq<Seq<char>>
    decreases text.len(),
{
    if text.len() == 0 {
        if cur.len() == 0 {
            Seq::empty()
        } else {
            seq![cur]
        }
    } else if text[0] == '\n' {
        seq![strip_cr(cur)] + lines_from(text.drop_first(), Seq::empty())
    } else {
        lines_from(text.drop_first(), cur.push(text[0]))
    }
}

/// The logical lines of `text`: split at newline characters, a carriage
/// return directly before a newline is dropped with it, and a trailing
/// newline produces no extra empty line.
pub open spec fn spec_lines(text: Seq<char>) -> Seq<Seq<char>> {
    lines_from(text, Seq::empty())
}

/// A text has no more logical lines than characters.
proof fn lemma_lines_from_len(text: Seq<char>, cur: Seq<char>)
    ensures
        lines_from(text, cur).len() <= text.len() + if cur.len() == 0 {
            0int
        } else {
            1int
        },
    decreases text.len(),
{
    if text.len() == 0 {
    } else if text[0] == '\n' {
        lemma_lines_from_len(text.drop_first(), Seq::empty());
    } else {
        lemma_lines_from_len(text.drop_first(), cur.push(text[0]));
    }
}

pub proof fn lemma_spec_lines_len(text: Seq<char>)
    ensures
        spec_lines(text).len() <= text.len(),
{
    lemma_lines_from_len(text, Seq::empty());
}

/// Splits `contents` into its logical lines, in order.
pub fn split_lines(contents: &str) -> (lines: Vec<String>)
    ensures
        lines@.len() == spec_lines(contents@).len(),
        forall|k: int| 0 <= k < lines@.len() ==> lines@[k]@ == spec_lines(contents@)[k],
{
    let text = contents;
    let n = text.unicode_len();
    let mut lines: Vec<String> = Vec::new();
    let ghost mut done: Seq<Seq<char>> = Seq::empty();
    let mut start: usize = 0;
    let mut i: usize = 0;
    proof {
        assert(text@.skip(0) =~= text@);
        assert(text@.subrange(0, 0) =~= Seq::<char>::empty());
    }
    while i < n
        invariant
            n == text@.len(),
            start <= i <= n,
            forall|k: int| start <= k < i ==> text@[k] != '\n',
            lines@.len() == done.len(),
            forall|k: int| 0 <= k < done.len() ==> lines@[k]@ == done[k],
            spec_lines(text@) == done + lines_from(
                text@.skip(i as int),
                text@.subrange(start as int, i as int),
            ),
        decreases n - i,
    {
        let ghost cur = text@.subrange(start as int, i as int);
        proof {
            assert(text@.skip(i as int)[0] == text@[i as int]);
            assert(text@.skip(i as int).drop_first() =~= text@.skip(i as int + 1));
        }
        let c = text.get_char(i);
        if c == '\n' {
            let line_end = if i > start && text.get_char(i - 1) == '\r' {
                i - 1
            } else {
                i
            };
            proof {
                assert(strip_cr(cur) =~= text@.subrange(start as int, line_end as int));
            }
            let line = text.substring_char(start, line_end);
            let owned: String = String::from_str(line);
            lines.push(owned);
            proof {
                done = done.push(strip_cr(cur));
                assert(lines_from(text@.skip(i as int), cur) == seq![strip_cr(cur)]
                    + lines_from(text@.skip(i as int + 1), Seq::empty()));
                assert(text@.subrange(i as int + 1, i as int + 1) =~= Seq::<char>::empty());
                assert(done + lines_from(text@.skip(i as int + 1), Seq::empty())
                    =~= done.drop_last() + (seq![strip_cr(cur)] + lines_from(
                    text@.skip(i as int + 1),
                    Seq::empty(),
                )));
            }
            start = i + 1;
        } else {
            proof {
                assert(lines_from(text@.skip(i as int), cur) == lines_from(
                    text@.skip(i as int + 1),
                    cur.push(text@[i as int]),
                ));
                assert(cur.push(text@[i as int]) =~= text@.subrange(start as int, i as int + 1));
            }
        }
        i += 1;
    }
    proof {
        let cur = text@.subrange(start as int, n as int);
        assert(text@.skip(n as int) =~= Seq::<char>::empty());
        if start == n {
            assert(cur =~= Seq::<char>::empty());
            assert(lines_from(Seq::<char>::empty(), cur) =~= Seq::<Seq<char>>::empty());
            assert(done + Seq::<Seq<char>>::empty() =~= done);
        } else {
            assert(lines_from(Seq::<char>::empty(), cur) =~= seq![cur]);
        }
    }
    if start < n {
        let line = text.substring_char(start, n);
        let owned: String = String::from_str(line);
        lines.push(owned);
        proof {
            done = done.push(text@.subrange(start as int, n as int));
            assert(done =~= done.drop_last() + seq![text@.subrange(start as int, n as int)]);
        }
    }
    lines
}

/// The match records of `lines` against `query` under `mode`, where the first
/// line of `lines` carries line number `first`: each record pairs a line
/// number with the verbatim text of the matching line.
pub open spec fn spec_scan(
    lines: Seq<Seq<char>>,
    query: Seq<char>,
    mode: CaseMode,
    first: int,
) -> Seq<(int, Seq<char>)>
    decreases lines.len(),
{
    if lines.len() == 0 {
        Seq::empty()
    } else {
        let rest = spec_scan(lines.drop_first(), query, mode, first + 1);
        if spec_line_match(query, lines[0], mode) {
            seq![(first, lines[0])] + rest
        } else {
            rest
        }
    }
}

/// The occurrence vector carries exactly the records `recs`: same length,
/// and entry for entry the same line number and the same line text.
pub open spec fn occs_match_records(occs: Seq<GrepOccourence>, recs: Seq<(int, Seq<char>)>) -> bool {
    &&& occs.len() == recs.len()
    &&& forall|k: int|
        0 <= k < recs.len() ==> (#[trigger] occs[k]).line_number as int == recs[k].0
            && occs[k].content@ == recs[k].1
}

/// The records that one file's contents yield under a configuration.
pub open spec fn file_records(contents: Seq<char>, query: Seq<char>, case_sensitive: bool) -> Seq<
    (int, Seq<char>),
> {
    spec_scan(spec_lines(contents), query, mode_of(case_sensitive), 1)
}

/// The case mode that a configuration's flag selects.
pub open spec fn mode_of(case_sensitive: bool) -> CaseMode {
    if case_sensitive {
        CaseMode::Sensitive
    } else {
        CaseMode::Insensitive
    }
}

/// Scanning one more line appends its record, or nothing, at the end.
proof fn lemma_spec_scan_push(
    lines: Seq<Seq<char>>,
    line: Seq<char>,
    query: Seq<char>,
    mode: CaseMode,
    first: int,
)
    ensures
        spec_scan(lines.push(line), query, mode, first) == spec_scan(lines, query, mode, first)
            + if spec_line_match(query, line, mode) {
            seq![((first + lines.len()) as int, line)]
        } else {
            Seq::<(int, Seq<char>)>::empty()
        },
    decreases lines.len(),
{
    let all = lines.push(line);
    let tail = if spec_line_match(query, line, mode) {
        seq![((first + lines.len()) as int, line)]
    } else {
        Seq::<(int, Seq<char>)>::empty()
    };
    if lines.len() == 0 {
        assert(all.drop_first() =~= Seq::<Seq<char>>::empty());
        assert(spec_scan(Seq::<Seq<char>>::empty(), query, mode, first + 1) =~= Seq::<(
            int,
            Seq<char>,
        )>::empty());
        assert(all[0] == line);
        assert(spec_scan(all, query, mode, first) =~= spec_scan(lines, query, mode, first) + tail);
    } else {
        assert(all.drop_first() =~= lines.drop_first().push(line));
        lemma_spec_scan_push(lines.drop_first(), line, query, mode, first + 1);
        assert(all[0] == lines[0]);
        if spec_line_match(query, lines[0], mode) {
            assert(seq![(first, lines[0])] + (spec_scan(lines.drop_first(), query, mode, first + 1)
                + tail) =~= (seq![(first, lines[0])] + spec_scan(
                lines.drop_first(),
                query,
                mode,
                first + 1,
            )) + tail);
        }
    }
}

/// Line numbers of the records start at `first`, stay below `first` plus the
/// number of lines, and strictly increase; and a scan reports no more records
/// than there are lines.
pub proof fn lemma_spec_scan_increasing(
    lines: Seq<Seq<char>>,
    query: Seq<char>,
    mode: CaseMode,
    first: int,
)
    ensures
        spec_scan(lines, query, mode, first).len() <= lines.len(),
        forall|k: int|
            0 <= k < spec_scan(lines, query, mode, first).len() ==> first <= (#[trigger] spec_scan(
                lines,
                query,
                mode,
                first,
            )[k]).0 < first + lines.len(),
        forall|k1: int, k2: int|
            0 <= k1 < k2 < spec_scan(lines, query, mode, first).len() ==> spec_scan(
                lines,
                query,
                mode,
                first,
            )[k1].0 < spec_scan(lines, query, mode, first)[k2].0,
    decreases lines.len(),
{
    if lines.len() > 0 {
        lemma_spec_scan_increasing(lines.drop_first(), query, mode, first + 1);
    }
}

/// When a scan reports as many records as there are lines — as with an empty
/// query — record `k` carries line number `first + k` and line `k` verbatim.
pub proof fn lemma_full_scan_records(
    lines: Seq<Seq<char>>,
    query: Seq<char>,
    mode: CaseMode,
    first: int,
)
    requires
        spec_scan(lines, query, mode, first).len() == lines.len(),
    ensures
        forall|k: int|
            0 <= k < lines.len() ==> (#[trigger] spec_scan(lines, query, mode, first)[k]) == ((
            first + k,
            lines[k],
            )),
    decreases lines.len(),
{
    if lines.len() > 0 {
        lemma_spec_scan_increasing(lines.drop_first(), query, mode, first + 1);
        assert(spec_line_match(query, lines[0], mode));
        lemma_full_scan_records(lines.drop_first(), query, mode, first + 1);
    }
}

/// Scanning is repeatable: two occurrence vectors that both carry the records
/// of the same text, query and mode agree record for record — the outcome of
/// a scan is a function of the scanned text and the configuration alone.
pub proof fn lemma_scan_deterministic(
    a: Seq<GrepOccourence>,
    b: Seq<GrepOccourence>,
    recs: Seq<(int, Seq<char>)>,
)
    requires
        occs_match_records(a, recs),
        occs_match_records(b, recs),
    ensures
        a.len() == b.len(),
        forall|k: int|
            0 <= k < a.len() ==> (#[trigger] a[k]).line_number == b[k].line_number
                && a[k].content@ == b[k].content@,
{
}

/// Collects the match records of `contents` against `query` under `mode`,
/// in line order, with 1-based line numbers and the matching lines verbatim.
/// An empty query yields one record for every line.
pub fn scan(contents: &str, query: &str, mode: CaseMode) -> (r: Vec<GrepOccourence>)
    requires
        contents@.len() <= u32::MAX,
    ensures
        occs_match_records(r@, spec_scan(spec_lines(contents@), query@, mode, 1)),
        query@.len() == 0 ==> r@.len() == spec_lines(contents@).len(),
        forall|k1: int, k2: int|
            0 <= k1 < k2 < r@.len() ==> (#[trigger] r@[k1]).line_number < (#[trigger] r@[
                k2
            ]).line_number,
{
    proof {
        lemma_spec_lines_len(contents@);
    }
    let lines = split_lines(contents);
    let ghost all_lines = spec_lines(contents@);
    let mut out: Vec<GrepOccourence> = Vec::new();
    let mut i: usize = 0;
    proof {
        assert(all_lines.take(0) =~= Seq::<Seq<char>>::empty());
    }
    while i < lines.len()
        invariant
            i <= lines@.len(),
            lines@.len() == all_lines.len(),
            all_lines.len() <= u32::MAX,
            forall|k: int| 0 <= k < lines@.len() ==> lines@[k]@ == all_lines[k],
            occs_match_records(out@, spec_scan(all_lines.take(i as int), query@, mode, 1)),
            query@.len() == 0 ==> out@.len() == i,
        decreases lines@.len() - i,
    {
        let line_i: &String = &lines[i];
        let m = line_matches(query, line_i.as_str(), mode);
        proof {
            assert(all_lines.take(i as int).push(all_lines[i as int]) =~= all_lines.take(
                i as int + 1,
            ));
            lemma_spec_scan_push(all_lines.take(i as int), all_lines[i as int], query@, mode, 1);
            let prev = spec_scan(all_lines.take(i as int), query@, mode, 1);
            assert(prev + Seq::<(int, Seq<char>)>::empty() =~= prev);
        }
        if m {
            let content = line_i.clone();
            let num = (i + 1) as u32;
            out.push(GrepOccourence::new(num, content));
        }
        i += 1;
    }
    proof {
        assert(all_lines.take(all_lines.len() as int) =~= all_lines);
        lemma_spec_scan_increasing(all_lines, query@, mode, 1);
    }
    out
}

/// Case-sensitive search: the match records of `contents` against `query`,
/// or `None` when no line matches.
pub fn search(query: &str, contents: &str) -> (r: Option<Vec<GrepOccourence>>)
    requires
        contents@.len() <= u32::MAX,
    ensures
        ({
            let recs = spec_scan(spec_lines(contents@), query@, CaseMode::Sensitive, 1);
            &&& (r is Some <==> recs.len() > 0)
            &&& (r matches Some(v) ==> occs_match_records(v@, recs))
        }),
        query@.len() == 0 && spec_lines(contents@).len() > 0 ==> r is Some,
{
    let occs = scan(contents, query, CaseMode::Sensitive);
    if occs.len() == 0 {
        None
    } else {
        Some(occs)
    }
}

/// Case-insensitive search: the match records of `contents` against `query`
/// with both sides lower-cased, or `None` when no line matches.
pub fn search_case_insensitive(query: &str, contents: &str) -> (r: Option<Vec<GrepOccourence>>)
    requires
        contents@.len() <= u32::MAX,
    ensures
        ({
            let recs = spec_scan(spec_lines(contents@), query@, CaseMode::Insensitive, 1);
            &&& (r is Some <==> recs.len() > 0)
            &&& (r matches Some(v) ==> occs_match_records(v@, recs))
        }),
        query@.len() == 0 && spec_lines(contents@).len() > 0 ==> r is Some,
{
    let occs = scan(contents, query, CaseMode::Insensitive);
    if occs.len() == 0 {
        None
    } else {
        Some(occs)
    }
}

/// Scans one file's contents under a configuration: a result keyed by `path`
/// when at least one line matches, `None` otherwise.
pub fn scan_file(path: String, contents: &str, config: &Config) -> (r: Option<GrepResult>)
    requires
        contents@.len() <= u32::MAX,
    ensures
        ({
            let recs = file_records(contents@, config.query@, config.case_sensitive);
            &&& (r is Some <==> recs.len() > 0)
            &&& (r matches Some(g) ==> g.filename@ == path@ && occs_match_records(
                g.occourences@,
                recs,
            ))
        }),
{
    let occs = if config.case_sensitive {
        search(config.query.as_str(), contents)
    } else {
        search_case_insensitive(config.query.as_str(), contents)
    };
    match occs {
        Some(v) => Some(GrepResult::new(path, v)),
        None => None,
    }
}

/// Appends the result of one file to the collected outcome: exactly when at
/// least one line matches, one result keyed by `path` is appended, and the
/// results already collected stay as they were.
pub fn record_file(results: &mut Vec<GrepResult>, path: String, contents: &str, config: &Config)
    requires
        contents@.len() <= u32::MAX,
    ensures
        ({
            let recs = file_records(contents@, config.query@, config.case_sensitive);
            &&& recs.len() == 0 ==> final(results)@ == old(results)@
            &&& recs.len() > 0 ==> final(results)@.len() == old(results)@.len() + 1
                && final(results)@.last().filename@ == path@ && occs_match_records(
                final(results)@.last().occourences@,
                recs,
            )
            &&& forall|k: int|
                0 <= k < old(results)@.len() ==> final(results)@[k] == old(results)@[k]
        }),
{
    match scan_file(path, contents, config) {
        Some(g) => results.push(g),
        None => {},
    }
}

} // verus!
