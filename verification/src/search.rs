//! Searching a port's lines: by substring, by exact text, or by regular expression.
use vstd::prelude::*;

use crate::clock::iso_text;
use crate::pattern::{compile, matches_text, regex_accepts, regex_compiles, regex_source};
use crate::sql::{LineRow, LineTables};
use crate::storage::{SqliteStorage, StorageError, StoredLine, TimeRange};
use crate::text::{push_signed, same_text};

verus! {

/// Maximum results returned by `serial_search`.
pub const MAX_SEARCH_RESULTS: u32 = 1000;

/// Default results returned by `serial_search`.
pub const DEFAULT_SEARCH_RESULTS: u32 = 100;

/// How a query is meant.
#[derive(Debug, Clone, Copy, PartialEq, Eq, Structural)]
pub enum QueryKind {
    /// The whole line.
    Exact,
    /// A part of the line.
    Substring,
    /// A pattern that matches in the line.
    Regex,
}

/// The most results that a search returns.
pub open spec fn search_limit_spec(max_results: Option<u32>) -> u32 {
    match max_results {
        Some(n) => if n < MAX_SEARCH_RESULTS {
            n
        } else {
            MAX_SEARCH_RESULTS
        },
        None => DEFAULT_SEARCH_RESULTS,
    }
}

/// The most results that a search returns.
pub fn search_limit(max_results: Option<u32>) -> (r: u32)
    ensures
        r == search_limit_spec(max_results),
        r <= MAX_SEARCH_RESULTS,
{
    match max_results {
        Some(n) => if n < MAX_SEARCH_RESULTS {
            n
        } else {
            MAX_SEARCH_RESULTS
        },
        None => DEFAULT_SEARCH_RESULTS,
    }
}

/// How a query is meant, by the name of its type.
pub open spec fn kind_of(query_type: Option<Seq<char>>) -> QueryKind {
    match query_type {
        Some(t) => if t == "exact"@ {
            QueryKind::Exact
        } else if t == "regex"@ {
            QueryKind::Regex
        } else {
            QueryKind::Substring
        },
        None => QueryKind::Substring,
    }
}

/// How a query is meant, by the name of its type. Any other name stands for a substring.
pub fn query_kind(query_type: Option<&str>) -> (r: QueryKind)
    ensures
        r == kind_of(crate::server::opt_text(query_type)),
{
    match query_type {
        Some(t) => if same_text(t, "exact") {
            QueryKind::Exact
        } else if same_text(t, "regex") {
            QueryKind::Regex
        } else {
            QueryKind::Substring
        },
        None => QueryKind::Substring,
    }
}

/// The rows with a good verdict.
pub open spec fn chosen(rows: Seq<LineRow>, verdicts: Seq<bool>) -> Seq<LineRow>
    decreases rows.len(),
{
    if rows.len() == 0 || verdicts.len() != rows.len() {
        Seq::empty()
    } else if verdicts.last() {
        chosen(rows.drop_last(), verdicts.drop_last()).push(rows.last())
    } else {
        chosen(rows.drop_last(), verdicts.drop_last())
    }
}

/// The first `max` candidates with a good verdict.
pub fn pick(candidates: Vec<StoredLine>, verdicts: &Vec<bool>, max: u32) -> (r: Vec<StoredLine>)
    requires
        verdicts@.len() == candidates@.len(),
    ensures
        crate::sql::line_rows(r@) == crate::sql::first_n(
            chosen(crate::sql::line_rows(candidates@), verdicts@),
            max as int,
        ),
{
    let ghost rows = crate::sql::line_rows(candidates@);
    let mut out: Vec<StoredLine> = Vec::new();
    let mut taken: u32 = 0;
    let mut i: usize = 0;
    proof {
        assert(crate::sql::line_rows(out@) =~= chosen(rows.take(0), verdicts@.take(0)));
    }
    while i < candidates.len() && taken < max
        invariant
            i <= candidates@.len(),
            taken <= max,
            verdicts@.len() == candidates@.len(),
            rows == crate::sql::line_rows(candidates@),
            out@.len() == taken,
            crate::sql::line_rows(out@) == chosen(rows.take(i as int), verdicts@.take(i as int)),
        decreases candidates@.len() - i,
    {
        proof {
            assert(rows.take(i + 1).drop_last() =~= rows.take(i as int));
            assert(verdicts@.take(i + 1).drop_last() =~= verdicts@.take(i as int));
            assert(rows.take(i + 1).last() == candidates@[i as int].row());
        }
        if verdicts[i] {
            let ghost before = out@;
            let l = &candidates[i];
            out.push(
                StoredLine {
                    id: l.id,
                    timestamp_ns: l.timestamp_ns,
                    payload: crate::text::copy_text(l.payload.as_str()),
                },
            );
            proof {
                assert(crate::sql::line_rows(out@) =~= crate::sql::line_rows(before).push(
                    candidates@[i as int].row(),
                ));
            }
            taken = taken + 1;
        }
        i = i + 1;
    }
    proof {
        assert(rows.take(rows.len() as int) =~= rows);
        assert(verdicts@.take(verdicts@.len() as int) =~= verdicts@);
        chosen_grows(rows, verdicts@, i as int);
        assert(crate::sql::line_rows(out@).len() == taken);
        assert(crate::sql::line_rows(out@) =~= crate::sql::first_n(
            chosen(rows, verdicts@),
            max as int,
        ));
    }
    out
}

/// What is chosen of a front part is the front part of what is chosen.
proof fn chosen_grows(rows: Seq<LineRow>, verdicts: Seq<bool>, k: int)
    requires
        verdicts.len() == rows.len(),
        0 <= k <= rows.len(),
    ensures
        ({
            let part = chosen(rows.take(k), verdicts.take(k));
            &&& part.len() <= chosen(rows, verdicts).len()
            &&& chosen(rows, verdicts).take(part.len() as int) == part
        }),
    decreases rows.len() - k,
{
    let part = chosen(rows.take(k), verdicts.take(k));
    if k == rows.len() {
        assert(rows.take(k) =~= rows);
        assert(verdicts.take(k) =~= verdicts);
        assert(chosen(rows, verdicts).take(part.len() as int) =~= part);
    } else {
        chosen_grows(rows, verdicts, k + 1);
        assert(rows.take(k + 1).drop_last() =~= rows.take(k));
        assert(verdicts.take(k + 1).drop_last() =~= verdicts.take(k));
        let more = chosen(rows.take(k + 1), verdicts.take(k + 1));
        assert(more.take(part.len() as int) =~= part);
        assert(chosen(rows, verdicts).take(part.len() as int) =~= part);
    }
}

/// Verdicts that follow a rule choose what the rule takes.
proof fn chosen_by_rule(rows: Seq<LineRow>, verdicts: Seq<bool>, p: spec_fn(LineRow) -> bool)
    requires
        verdicts.len() == rows.len(),
        forall|i: int| 0 <= i < rows.len() ==> #[trigger] verdicts[i] == p(rows[i]),
    ensures
        chosen(rows, verdicts) == rows.filter(p),
    decreases rows.len(),
{
    reveal(Seq::filter);
    if rows.len() > 0 {
        let f = rows.drop_last();
        let v = verdicts.drop_last();
        assert forall|i: int| 0 <= i < f.len() implies #[trigger] v[i] == p(f[i]) by {
            assert(v[i] == verdicts[i]);
        }
        chosen_by_rule(f, v, p);
        assert(verdicts[rows.len() - 1] == p(rows[rows.len() - 1]));
    }
}

/// The row is in the time range, if one is given, and answers the query.
pub open spec fn answers(
    row: LineRow,
    query: Seq<char>,
    kind: QueryKind,
    range: Option<TimeRange>,
) -> bool {
    &&& crate::storage::covers(range, row)
    &&& match kind {
        QueryKind::Substring => crate::text::has_infix(row.text, query),
        QueryKind::Exact => row.text == query,
        QueryKind::Regex => regex_accepts(query, row.text),
    }
}

/// What a search finds: the first lines that answer the query, as many as are asked for.
pub open spec fn search_rows(
    rows: Seq<LineRow>,
    query: Seq<char>,
    kind: QueryKind,
    range: Option<TimeRange>,
    max: u32,
) -> Seq<LineRow> {
    crate::sql::first_n(
        rows.filter(|row: LineRow| answers(row, query, kind, range)),
        max as int,
    )
}

/// Of the lines in range, those that a rule takes are those that answer the query.
proof fn within_answers(
    rows: Seq<LineRow>,
    q: spec_fn(LineRow) -> bool,
    query: Seq<char>,
    kind: QueryKind,
    range: Option<TimeRange>,
)
    requires
        forall|row: LineRow| #[trigger] q(row) == answers(row, query, kind, None),
    ensures
        crate::storage::within(rows, range).filter(q) == rows.filter(
            |row: LineRow| answers(row, query, kind, range),
        ),
{
    let p = |row: LineRow| crate::storage::covers(range, row);
    crate::storage::filter_twice(rows, p, q);
    crate::storage::same_filter(
        rows,
        |row: LineRow| p(row) && q(row),
        |row: LineRow| answers(row, query, kind, range),
    );
}

/// What a search finds has ascending ids.
proof fn found_ascend(
    t: LineTables,
    query: Seq<char>,
    kind: QueryKind,
    range: Option<TimeRange>,
    max: u32,
)
    requires
        t.wf(),
    ensures
        crate::storage::ids_ascend(search_rows(t.lines, query, kind, range, max)),
        forall|i: int|
            0 <= i < search_rows(t.lines, query, kind, range, max).len() ==> answers(
                #[trigger] search_rows(t.lines, query, kind, range, max)[i],
                query,
                kind,
                range,
            ),
{
    crate::storage::picked_ascend(t, |row: LineRow| answers(row, query, kind, range), max as int);
    crate::storage::picked_are_first(
        t,
        |row: LineRow| answers(row, query, kind, range),
        max as int,
    );
}

/// Each line stands for the row at its place.
proof fn rows_of_lines(v: Seq<StoredLine>)
    ensures
        crate::sql::line_rows(v).len() == v.len(),
        forall|i: int|
            0 <= i < v.len() ==> {
                &&& crate::sql::line_rows(v)[i].text == (#[trigger] v[i]).payload@
                &&& crate::sql::line_rows(v)[i].ts == v[i].timestamp_ns
            },
{
}

/// The first `max` candidates whose text is the query.
pub fn exact_lines(candidates: Vec<StoredLine>, query: &str, max: u32) -> (r: Vec<StoredLine>)
    ensures
        crate::sql::line_rows(r@) == crate::sql::first_n(
            crate::sql::line_rows(candidates@).filter(|row: LineRow| row.text == query@),
            max as int,
        ),
{
    let mut verdicts: Vec<bool> = Vec::new();
    let mut i: usize = 0;
    while i < candidates.len()
        invariant
            i <= candidates@.len(),
            verdicts@.len() == i,
            forall|k: int|
                0 <= k < i ==> #[trigger] verdicts@[k] == (candidates@[k].payload@ == query@),
        decreases candidates@.len() - i,
    {
        verdicts.push(same_text(candidates[i].payload.as_str(), query));
        i = i + 1;
    }
    proof {
        chosen_by_rule(
            crate::sql::line_rows(candidates@),
            verdicts@,
            |row: LineRow| row.text == query@,
        );
    }
    pick(candidates, &verdicts, max)
}

/// The first `max` candidates in whose text the pattern matches.
pub fn pattern_lines(candidates: Vec<StoredLine>, re: &regex::Regex, max: u32) -> (r: Vec<
    StoredLine,
>)
    ensures
        crate::sql::line_rows(r@) == crate::sql::first_n(
            crate::sql::line_rows(candidates@).filter(
                |row: LineRow| regex_accepts(regex_source(*re), row.text),
            ),
            max as int,
        ),
{
    let mut verdicts: Vec<bool> = Vec::new();
    let mut i: usize = 0;
    while i < candidates.len()
        invariant
            i <= candidates@.len(),
            verdicts@.len() == i,
            forall|k: int|
                0 <= k < i ==> #[trigger] verdicts@[k] == regex_accepts(
                    regex_source(*re),
                    candidates@[k].payload@,
                ),
        decreases candidates@.len() - i,
    {
        verdicts.push(matches_text(re, candidates[i].payload.as_str()));
        i = i + 1;
    }
    proof {
        chosen_by_rule(
            crate::sql::line_rows(candidates@),
            verdicts@,
            |row: LineRow| regex_accepts(regex_source(*re), row.text),
        );
    }
    pick(candidates, &verdicts, max)
}

/// Search the lines. A pattern that does not compile is refused before the buffer is looked at.
pub fn run_search(
    storage: &mut SqliteStorage,
    query: &str,
    kind: QueryKind,
    range: Option<TimeRange>,
    max: u32,
) -> (r: Result<Vec<StoredLine>, StorageError>)
    ensures
        final(storage).path() == old(storage).path(),
        final(storage).setup() == old(storage).setup(),
        r matches Ok(v) ==> {
            &&& crate::sql::looked(old(storage)@, final(storage)@)
            &&& final(storage)@.now.wf()
            &&& crate::storage::ids_ascend(crate::sql::line_rows(v@))
            &&& crate::sql::line_rows(v@) == search_rows(
                final(storage)@.now.lines,
                query@,
                kind,
                range,
                max,
            )
            &&& forall|i: int|
                0 <= i < v@.len() ==> {
                    let line = #[trigger] v@[i];
                    &&& range matches Some(t) ==> t.start_ns <= line.timestamp_ns <= t.end_ns
                    &&& kind == QueryKind::Substring ==> crate::text::has_infix(
                        line.payload@,
                        query@,
                    )
                    &&& kind == QueryKind::Exact ==> line.payload@ == query@
                    &&& kind == QueryKind::Regex ==> regex_accepts(query@, line.payload@)
                }
        },
        r matches Err(StorageError::InvalidRegex(_)) <==> kind == QueryKind::Regex
            && !regex_compiles(query@),
        r matches Err(StorageError::InvalidRegex(_)) ==> final(storage)@ == old(storage)@,
        r matches Err(e) ==> (e is Sqlite || e is InvalidRegex) && crate::sql::failed(
            old(storage)@,
            final(storage)@,
        ),
{
    match kind {
        QueryKind::Substring => {
            let r = storage.search_substring(query, range, max);
            proof {
                crate::storage::same_filter(
                    storage@.now.lines,
                    |row: LineRow| crate::storage::hit(row, query@, range),
                    |row: LineRow| answers(row, query@, kind, range),
                );
                if r is Ok {
                    found_ascend(storage@.now, query@, kind, range, max);
                    rows_of_lines(r->Ok_0@);
                }
            }
            r
        },
        QueryKind::Exact => {
            let candidates = match storage.lines_in(range) {
                Ok(v) => v,
                Err(e) => return Err(e),
            };
            proof {
                within_answers(
                    storage@.now.lines,
                    |row: LineRow| row.text == query@,
                    query@,
                    kind,
                    range,
                );
                found_ascend(storage@.now, query@, kind, range, max);
            }
            let found = exact_lines(candidates, query, max);
            proof {
                rows_of_lines(found@);
            }
            Ok(found)
        },
        QueryKind::Regex => {
            let re = match compile(query) {
                Ok(re) => re,
                Err(e) => return Err(StorageError::InvalidRegex(e)),
            };
            let candidates = match storage.lines_in(range) {
                Ok(v) => v,
                Err(e) => return Err(e),
            };
            proof {
                within_answers(
                    storage@.now.lines,
                    |row: LineRow| regex_accepts(regex_source(re), row.text),
                    query@,
                    kind,
                    range,
                );
                found_ascend(storage@.now, query@, kind, range, max);
            }
            let found = pattern_lines(candidates, &re, max);
            proof {
                rows_of_lines(found@);
            }
            Ok(found)
        },
    }
}

/// A line of a search's answer.
pub open spec fn result_text(l: LineRow) -> Seq<char> {
    crate::text::signed_dec(l.id as int) + ":["@ + crate::clock::iso(l.ts as int) + "] "@ + l.text
}

/// The lines of a search's answer.
pub open spec fn result_texts(rows: Seq<LineRow>) -> Seq<Seq<char>> {
    rows.map_values(|l: LineRow| result_text(l))
}

/// The answer to a search: a line for each result.
pub fn render_search(results: &Vec<StoredLine>) -> (r: String)
    ensures
        r@ == crate::text::joined(result_texts(crate::sql::line_rows(results@)), "\n"@),
{
    let mut parts: Vec<String> = Vec::new();
    let mut i: usize = 0;
    while i < results.len()
        invariant
            i <= results@.len(),
            parts@.len() == i,
            forall|k: int|
                0 <= k < i ==> (#[trigger] parts@[k])@ == result_text(results@[k].row()),
        decreases results@.len() - i,
    {
        let mut s = String::new();
        push_signed(&mut s, results[i].id);
        s.append(":[");
        let t = iso_text(results[i].timestamp_ns);
        s.append(t.as_str());
        s.append("] ");
        s.append(results[i].payload.as_str());
        proof {
            assert(s@ =~= result_text(results@[i as int].row()));
        }
        parts.push(s);
        i = i + 1;
    }
    proof {
        assert(crate::text::texts(parts@) =~= result_texts(crate::sql::line_rows(results@)));
    }
    crate::text::join(&parts, "\n")
}

// --- Laws ---

/// Whatever a search finds is a stored line that answers the query, and there is no more of it than
/// was asked for; where less was found than asked for, every line that answers was found.
pub proof fn law_search_sound(
    rows: Seq<LineRow>,
    query: Seq<char>,
    kind: QueryKind,
    range: Option<TimeRange>,
    max: u32,
    row: LineRow,
)
    ensures
        ({
            let found = search_rows(rows, query, kind, range, max);
            &&& found.contains(row) ==> rows.contains(row) && answers(row, query, kind, range)
            &&& found.len() <= max
            &&& found.len() < max && rows.contains(row) && answers(row, query, kind, range)
                ==> found.contains(row)
        }),
{
    let found = search_rows(rows, query, kind, range, max);
    let p = |r: LineRow| answers(r, query, kind, range);
    let all = rows.filter(p);
    if found.contains(row) {
        let i = found.index_of(row);
        assert(all[i] == row);
        rows.lemma_filter_pred(p, i);
        assert(all.contains(row));
        crate::storage::filter_subset(rows, p, row);
    }
    if rows.contains(row) && answers(row, query, kind, range) {
        rows.filter_lemma(p);
        let i = rows.index_of(row);
        assert(p(rows[i]));
    }
}

/// A search gives the first stored lines that answer the query, by their ids. With a time range, a
/// line answers only if its time stamp is not before the start and not after the end. As a substring
/// the query stands in the line as it is written; as an exact text it is the whole line; as a regular
/// expression it is compiled as it is written, with no flag added.
pub proof fn law_search_exact(
    t: LineTables,
    query: Seq<char>,
    range: Option<TimeRange>,
    max: u32,
)
    requires
        t.wf(),
    ensures
        crate::storage::are_first(
            search_rows(t.lines, query, QueryKind::Substring, range, max),
            t.lines,
            |row: LineRow|
                crate::text::has_infix(row.text, query) && (range is None || row.ts
                    >= range->0.start_ns && row.ts <= range->0.end_ns),
            max as int,
        ),
        crate::storage::are_first(
            search_rows(t.lines, query, QueryKind::Exact, range, max),
            t.lines,
            |row: LineRow|
                row.text == query && (range is None || row.ts >= range->0.start_ns && row.ts
                    <= range->0.end_ns),
            max as int,
        ),
        crate::storage::are_first(
            search_rows(t.lines, query, QueryKind::Regex, range, max),
            t.lines,
            |row: LineRow|
                regex_accepts(query, row.text) && (range is None || row.ts >= range->0.start_ns
                    && row.ts <= range->0.end_ns),
            max as int,
        ),
{
    let infix = |row: LineRow|
        crate::text::has_infix(row.text, query) && (range is None || row.ts >= range->0.start_ns
            && row.ts <= range->0.end_ns);
    let same = |row: LineRow|
        row.text == query && (range is None || row.ts >= range->0.start_ns && row.ts
            <= range->0.end_ns);
    let accepted = |row: LineRow|
        regex_accepts(query, row.text) && (range is None || row.ts >= range->0.start_ns && row.ts
            <= range->0.end_ns);
    crate::storage::same_filter(
        t.lines,
        |row: LineRow| answers(row, query, QueryKind::Substring, range),
        infix,
    );
    crate::storage::same_filter(
        t.lines,
        |row: LineRow| answers(row, query, QueryKind::Exact, range),
        same,
    );
    crate::storage::same_filter(
        t.lines,
        |row: LineRow| answers(row, query, QueryKind::Regex, range),
        accepted,
    );
    crate::storage::picked_are_first(t, infix, max as int);
    crate::storage::picked_are_first(t, same, max as int);
    crate::storage::picked_are_first(t, accepted, max as int);
}

/// A line is found by a regular expression exactly if the query, taken as the whole pattern, matches
/// in its text, whatever else is stored; so for each line by itself, and likewise for the other kinds.
pub proof fn law_search_of_one(row: LineRow, query: Seq<char>, max: u32)
    requires
        max > 0,
    ensures
        search_rows(seq![row], query, QueryKind::Regex, None, max).len() == (if regex_accepts(
            query,
            row.text,
        ) {
            1nat
        } else {
            0
        }),
        search_rows(seq![row], query, QueryKind::Exact, None, max).len() == (if row.text == query {
            1nat
        } else {
            0
        }),
        search_rows(seq![row], query, QueryKind::Substring, None, max).len() == (if exists|
            i: int,
        |
            0 <= i <= row.text.len() - query.len() && #[trigger] row.text.subrange(
                i,
                i + query.len(),
            ) == query {
            1nat
        } else {
            0
        }),
{
    reveal(Seq::filter);
    reveal_with_fuel(Seq::filter, 2);
    assert(seq![row].drop_last() =~= Seq::empty());
    assert(seq![row].last() == row);
    if crate::text::has_infix(row.text, query) {
        let i = choose|i: int| crate::text::stands_at(row.text, query, i);
        assert(row.text.subrange(i, i + query.len()) == query);
    }
    assert forall|i: int|
        0 <= i <= row.text.len() - query.len() && #[trigger] row.text.subrange(i, i + query.len())
            == query implies crate::text::has_infix(row.text, query) by {
        assert(crate::text::stands_at(row.text, query, i));
    }
}

/// A search returns 100 lines where no limit is given, what is asked for up to 1000, and never more.
pub proof fn law_search_limit(n: u32)
    ensures
        search_limit_spec(None) == 100,
        n <= 1000 ==> search_limit_spec(Some(n)) == n,
        n >= 1000 ==> search_limit_spec(Some(n)) == 1000,
{
}

/// The names `exact` and `regex` stand for their kinds, and any other name, or none, for a substring.
pub proof fn law_query_kinds(name: Seq<char>)
    ensures
        kind_of(Some(name)) == QueryKind::Exact <==> name == "exact"@,
        kind_of(Some(name)) == QueryKind::Regex <==> name == "regex"@,
        kind_of(None) == QueryKind::Substring,
{
    reveal_strlit("exact");
    reveal_strlit("regex");
    assert("exact"@[0] == 'e' && "regex"@[0] == 'r');
}

/// The answer to a search has a line for each result, in the order of the results: its id, its time
/// and its text.
pub proof fn law_search_answer(a: Seq<LineRow>, b: Seq<LineRow>, row: LineRow)
    ensures
        result_texts(a + b) == result_texts(a) + result_texts(b),
        result_texts(seq![row]) == seq![
            crate::text::signed_dec(row.id as int) + ":["@ + crate::clock::iso(row.ts as int)
                + "] "@ + row.text,
        ],
        result_texts(Seq::empty()).len() == 0,
{
    assert(result_texts(a + b) =~= result_texts(a) + result_texts(b));
    assert(result_texts(seq![row]) =~= seq![result_text(row)]);
}

/// A line with a good verdict is chosen behind those before it, and one with a bad verdict is not.
pub proof fn law_chosen(rows: Seq<LineRow>, verdicts: Seq<bool>, row: LineRow)
    requires
        verdicts.len() == rows.len(),
    ensures
        chosen(rows.push(row), verdicts.push(true)) == chosen(rows, verdicts).push(row),
        chosen(rows.push(row), verdicts.push(false)) == chosen(rows, verdicts),
        chosen(Seq::empty(), Seq::empty()).len() == 0,
{
    assert(rows.push(row).drop_last() =~= rows);
    assert(verdicts.push(true).drop_last() =~= verdicts);
    assert(verdicts.push(false).drop_last() =~= verdicts);
}

} // verus!
