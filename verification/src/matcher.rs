//! The multi-pattern matcher: one automaton over all candidate values scans
//! the corpus in a single pass. Per line, every match counts as a hit; a
//! line number is recorded at most once per run of adjacent matches of the
//! same pattern; per file, each candidate with recorded lines gains one
//! location string `"path:line,line,..."`.

use vstd::prelude::*;

use crate::corpus::CorpusEntry;
use crate::fmt::{join_commas, push_join_commas, views};
use crate::gather::{all_nonempty, clone_chars};
use crate::lines::{lemma_lines_bound, lens_sum, spec_lines, split_lines};

verus! {

#[verifier::external_type_specification]
#[verifier::external_body]
pub struct ExAhoCorasick(aho_corasick::AhoCorasick);

/// The patterns the automaton was built over, in build order.
pub uninterp spec fn ac_patterns(ac: aho_corasick::AhoCorasick) -> Seq<Seq<char>>;

/// The pattern indices of the non-overlapping matches that the automaton
/// built over `patterns` reports in `haystack`, in match order.
pub uninterp spec fn ac_matches(patterns: Seq<Seq<char>>, haystack: Seq<char>) -> Seq<usize>;

/// Whether an automaton over exactly these patterns can be built: the
/// default builder is deterministic, so its success is a function of the
/// pattern list alone.
pub uninterp spec fn ac_buildable(patterns: Seq<Seq<char>>) -> bool;

/// Relies on aho_corasick::AhoCorasickBuilder::build, configured for exact,
/// case-sensitive matching: on success the automaton searches for exactly
/// the given patterns.
#[verifier::external_body]
fn ac_build(patterns: &Vec<Vec<char>>) -> (r: Option<aho_corasick::AhoCorasick>)
    ensures
        (r is Some) == ac_buildable(views(patterns@)),
        r matches Some(ac) ==> ac_patterns(ac) == views(patterns@),
{
    let pats: Vec<String> = patterns.iter().map(|p| p.iter().collect::<String>()).collect();
    match aho_corasick::AhoCorasickBuilder::new().ascii_case_insensitive(false).build(&pats) {
        Ok(ac) => Some(ac),
        Err(_) => None,
    }
}

/// Relies on aho_corasick::AhoCorasick::find_iter: it reports the
/// non-overlapping matches in the haystack in order, each identified by the
/// index of the matched pattern, so with nonempty patterns there are no
/// more matches than characters.
#[verifier::external_body]
fn ac_find_line(ac: &aho_corasick::AhoCorasick, line: &Vec<char>) -> (r: Vec<usize>)
    ensures
        r@ == ac_matches(ac_patterns(*ac), line@),
        forall|k: int| 0 <= k < r@.len() ==> (#[trigger] r@[k]) < ac_patterns(*ac).len(),
        all_nonempty(ac_patterns(*ac)) ==> r@.len() <= line@.len(),
{
    let hay: String = line.iter().collect();
    ac.find_iter(hay.as_str()).map(|m| m.pattern().as_usize()).collect()
}

/// How many of the matches in `ms` are of pattern `c`.
pub open spec fn count_in(ms: Seq<usize>, c: int) -> nat
    decreases ms.len(),
{
    if ms.len() == 0 {
        0
    } else {
        count_in(ms.drop_last(), c) + if ms.last() as int == c {
            1nat
        } else {
            0nat
        }
    }
}

/// The match list with runs of adjacent equal indices collapsed to one,
/// as the per-line recording loop sees them.
pub open spec fn collapse_runs(ms: Seq<usize>) -> Seq<usize>
    decreases ms.len(),
{
    if ms.len() == 0 {
        Seq::empty()
    } else {
        let rest = collapse_runs(ms.drop_last());
        if rest.len() > 0 && rest.last() == ms.last() {
            rest
        } else {
            rest.push(ms.last())
        }
    }
}

/// The line number `lineno`, repeated `count` times.
pub open spec fn rep_line(lineno: usize, count: nat) -> Seq<usize> {
    Seq::new(count, |i: int| lineno)
}

/// The line numbers recorded for candidate `c` over the per-line match
/// lists `lms` of one file: line `n` appears once per occurrence of `c` in
/// the collapsed match list of line `n`.
pub open spec fn file_line_hits(lms: Seq<Seq<usize>>, c: int) -> Seq<usize>
    decreases lms.len(),
{
    if lms.len() == 0 {
        Seq::empty()
    } else {
        file_line_hits(lms.drop_last(), c) + rep_line(
            lms.len() as usize,
            count_in(collapse_runs(lms.last()), c),
        )
    }
}

/// The total raw hits of candidate `c` over the per-line match lists of
/// one file: every match counts, also several on one line.
pub open spec fn file_total(lms: Seq<Seq<usize>>, c: int) -> nat
    decreases lms.len(),
{
    if lms.len() == 0 {
        0
    } else {
        file_total(lms.drop_last(), c) + count_in(lms.last(), c)
    }
}

/// The per-line match lists of a file's text under the given patterns.
pub open spec fn entry_lms(patterns: Seq<Seq<char>>, text: Seq<char>) -> Seq<Seq<usize>> {
    spec_lines(text).map_values(|l: Seq<char>| ac_matches(patterns, l))
}

/// The views of the corpus entries.
pub open spec fn corpus_views(es: Seq<CorpusEntry>) -> Seq<(Seq<char>, Seq<char>)> {
    es.map_values(|e: CorpusEntry| e@)
}

/// The total hits of candidate `c` over the whole corpus.
pub open spec fn corpus_total(
    patterns: Seq<Seq<char>>,
    entries: Seq<(Seq<char>, Seq<char>)>,
    c: int,
) -> nat
    decreases entries.len(),
{
    if entries.len() == 0 {
        0
    } else {
        corpus_total(patterns, entries.drop_last(), c) + file_total(
            entry_lms(patterns, entries.last().1),
            c,
        )
    }
}

/// One location string: the path, a colon, and the comma-joined line numbers.
pub open spec fn loc_string(path: Seq<char>, nums: Seq<usize>) -> Seq<char> {
    path + seq![':'] + join_commas(nums)
}

/// The location strings of candidate `c` over the corpus, one per file
/// with at least one recorded line, in corpus order.
pub open spec fn corpus_locs(
    patterns: Seq<Seq<char>>,
    entries: Seq<(Seq<char>, Seq<char>)>,
    c: int,
) -> Seq<Seq<char>>
    decreases entries.len(),
{
    if entries.len() == 0 {
        Seq::empty()
    } else {
        let rest = corpus_locs(patterns, entries.drop_last(), c);
        let lh = file_line_hits(entry_lms(patterns, entries.last().1), c);
        if lh.len() > 0 {
            rest.push(loc_string(entries.last().0, lh))
        } else {
            rest
        }
    }
}

/// The total character count of the corpus texts. The corpus must fit in
/// memory, so a scan requires this to fit in `usize`.
pub open spec fn total_chars(entries: Seq<(Seq<char>, Seq<char>)>) -> int
    decreases entries.len(),
{
    if entries.len() == 0 {
        0
    } else {
        total_chars(entries.drop_last()) + entries.last().1.len()
    }
}

/// The per-candidate outcome of the corpus scan.
pub struct MatchResult {
    /// In how many files the candidate was found.
    pub files_with_hits: usize,
    /// How many matches there were in all, counting several on one line.
    pub total_hits: usize,
    /// One `"path:line,line,..."` string per file with a hit.
    pub locations: Vec<Vec<char>>,
}

/// What the scan promises of the result for candidate `c`.
pub open spec fn match_result_model(
    r: MatchResult,
    patterns: Seq<Seq<char>>,
    entries: Seq<(Seq<char>, Seq<char>)>,
    c: int,
) -> bool {
    &&& r.total_hits == corpus_total(patterns, entries, c)
    &&& r.files_with_hits == corpus_locs(patterns, entries, c).len()
    &&& views(r.locations@) == corpus_locs(patterns, entries, c)
}

proof fn lemma_count_le_len(ms: Seq<usize>, c: int)
    ensures
        count_in(ms, c) <= ms.len(),
    decreases ms.len(),
{
    if ms.len() > 0 {
        lemma_count_le_len(ms.drop_last(), c);
    }
}

proof fn lemma_count_take_le(ms: Seq<usize>, c: int, j: int)
    requires
        0 <= j <= ms.len(),
    ensures
        count_in(ms.take(j), c) <= count_in(ms, c),
    decreases ms.len() - j,
{
    if j < ms.len() {
        lemma_count_take_le(ms, c, j + 1);
        assert(ms.take(j + 1).drop_last() =~= ms.take(j));
    } else {
        assert(ms.take(j) =~= ms);
    }
}

proof fn lemma_file_total_bound(lms: Seq<Seq<usize>>, lines: Seq<Seq<char>>, c: int)
    requires
        lms.len() == lines.len(),
        forall|i: int| 0 <= i < lms.len() ==> (#[trigger] lms[i]).len() <= lines[i].len(),
    ensures
        file_total(lms, c) <= lens_sum(lines),
    decreases lms.len(),
{
    if lms.len() > 0 {
        lemma_file_total_bound(lms.drop_last(), lines.drop_last(), c);
        lemma_count_le_len(lms.last(), c);
    }
}

pub proof fn lemma_total_chars_nonneg(entries: Seq<(Seq<char>, Seq<char>)>)
    ensures
        total_chars(entries) >= 0,
    decreases entries.len(),
{
    if entries.len() > 0 {
        lemma_total_chars_nonneg(entries.drop_last());
    }
}

pub proof fn lemma_total_chars_mono(entries: Seq<(Seq<char>, Seq<char>)>, k: int)
    requires
        0 <= k <= entries.len(),
    ensures
        total_chars(entries.take(k)) <= total_chars(entries),
    decreases entries.len() - k,
{
    if k < entries.len() {
        lemma_total_chars_mono(entries, k + 1);
        assert(entries.take(k + 1).drop_last() =~= entries.take(k));
    } else {
        assert(entries.take(k) =~= entries);
    }
}

/// A vector of `n` zeros.
fn zero_counts(n: usize) -> (r: Vec<usize>)
    ensures
        r@.len() == n,
        forall|i: int| 0 <= i < n ==> r@[i] == 0,
{
    let mut r: Vec<usize> = Vec::new();
    let mut i: usize = 0;
    while i < n
        invariant
            i <= n,
            r@.len() == i,
            forall|j: int| 0 <= j < i ==> r@[j] == 0,
        decreases n - i,
    {
        r.push(0);
        i = i + 1;
    }
    r
}

/// A vector of `n` empty line-number lists.
fn empty_line_lists(n: usize) -> (r: Vec<Vec<usize>>)
    ensures
        r@.len() == n,
        forall|i: int| 0 <= i < n ==> (#[trigger] r@[i])@ == Seq::<usize>::empty(),
{
    let mut r: Vec<Vec<usize>> = Vec::new();
    let mut i: usize = 0;
    while i < n
        invariant
            i <= n,
            r@.len() == i,
            forall|j: int| 0 <= j < i ==> (#[trigger] r@[j])@ == Seq::<usize>::empty(),
        decreases n - i,
    {
        let e: Vec<usize> = Vec::new();
        assert(e@ =~= Seq::<usize>::empty());
        r.push(e);
        i = i + 1;
    }
    r
}

/// A vector of `n` empty location lists.
fn empty_loc_lists(n: usize) -> (r: Vec<Vec<Vec<char>>>)
    ensures
        r@.len() == n,
        forall|i: int| 0 <= i < n ==> views((#[trigger] r@[i])@) == Seq::<Seq<char>>::empty(),
{
    let mut r: Vec<Vec<Vec<char>>> = Vec::new();
    let mut i: usize = 0;
    while i < n
        invariant
            i <= n,
            r@.len() == i,
            forall|j: int| 0 <= j < i ==> views((#[trigger] r@[j])@) == Seq::<Seq<char>>::empty(),
        decreases n - i,
    {
        let e: Vec<Vec<char>> = Vec::new();
        assert(views(e@) =~= Seq::<Seq<char>>::empty());
        r.push(e);
        i = i + 1;
    }
    r
}

/// Counts each match of the line into `counts` and returns the collapsed
/// match list, one entry per run of adjacent equal indices.
fn aggregate_line(ms: &Vec<usize>, counts: &mut Vec<usize>) -> (matched: Vec<usize>)
    requires
        forall|k: int| 0 <= k < ms@.len() ==> (#[trigger] ms@[k]) < old(counts)@.len(),
        forall|c: int|
            0 <= c < old(counts)@.len() ==> old(counts)@[c] + count_in(ms@, c) <= usize::MAX,
    ensures
        final(counts)@.len() == old(counts)@.len(),
        forall|c: int|
            0 <= c < old(counts)@.len() ==> final(counts)@[c] == old(counts)@[c] + count_in(
                ms@,
                c,
            ),
        matched@ == collapse_runs(ms@),
        forall|k: int| 0 <= k < matched@.len() ==> (#[trigger] matched@[k]) < old(counts)@.len(),
{
    let mut matched: Vec<usize> = Vec::new();
    let mut j: usize = 0;
    while j < ms.len()
        invariant
            j <= ms@.len(),
            counts@.len() == old(counts)@.len(),
            forall|k: int| 0 <= k < ms@.len() ==> (#[trigger] ms@[k]) < old(counts)@.len(),
            forall|c: int|
                0 <= c < old(counts)@.len() ==> old(counts)@[c] + count_in(ms@, c) <= usize::MAX,
            forall|c: int|
                0 <= c < old(counts)@.len() ==> counts@[c] == old(counts)@[c] + count_in(
                    ms@.take(j as int),
                    c,
                ),
            matched@ == collapse_runs(ms@.take(j as int)),
            forall|k: int|
                0 <= k < matched@.len() ==> (#[trigger] matched@[k]) < old(counts)@.len(),
        decreases ms@.len() - j,
    {
        let idx = ms[j];
        proof {
            assert(ms@.take(j + 1 as int).drop_last() =~= ms@.take(j as int));
            assert(ms@.take(j + 1 as int).last() == ms@[j as int]);
            lemma_count_take_le(ms@, idx as int, j + 1 as int);
        }
        let cur = counts[idx];
        counts[idx] = cur + 1;
        if matched.len() == 0 || matched[matched.len() - 1] != idx {
            matched.push(idx);
        }
        proof {
            assert forall|c: int| 0 <= c < old(counts)@.len() implies counts@[c] == old(
                counts,
            )@[c] + count_in(ms@.take(j + 1 as int), c) by {
                if c == idx as int {
                } else {
                }
            }
        }
        j = j + 1;
    }
    assert(ms@.take(ms@.len() as int) =~= ms@);
    matched
}

/// Records the line number once for each entry of the collapsed match list.
fn record_lines(matched: &Vec<usize>, lineno: usize, line_hits: &mut Vec<Vec<usize>>)
    requires
        forall|k: int| 0 <= k < matched@.len() ==> (#[trigger] matched@[k]) < old(line_hits)@.len(),
    ensures
        final(line_hits)@.len() == old(line_hits)@.len(),
        forall|c: int|
            0 <= c < old(line_hits)@.len() ==> (#[trigger] final(line_hits)@[c])@ == old(
                line_hits,
            )@[c]@ + rep_line(lineno, count_in(matched@, c)),
{
    let mut j: usize = 0;
    while j < matched.len()
        invariant
            j <= matched@.len(),
            line_hits@.len() == old(line_hits)@.len(),
            forall|k: int|
                0 <= k < matched@.len() ==> (#[trigger] matched@[k]) < old(line_hits)@.len(),
            forall|c: int|
                0 <= c < old(line_hits)@.len() ==> (#[trigger] line_hits@[c])@ == old(
                    line_hits,
                )@[c]@ + rep_line(lineno, count_in(matched@.take(j as int), c)),
        decreases matched@.len() - j,
    {
        let idx = matched[j];
        let lh = &mut line_hits[idx];
        lh.push(lineno);
        proof {
            assert(matched@.take(j + 1 as int).drop_last() =~= matched@.take(j as int));
            assert(matched@.take(j + 1 as int).last() == matched@[j as int]);
            assert forall|c: int| 0 <= c < old(line_hits)@.len() implies (
            #[trigger] line_hits@[c])@ == old(line_hits)@[c]@ + rep_line(
                lineno,
                count_in(matched@.take(j + 1 as int), c),
            ) by {
                if c == idx as int {
                    assert(old(line_hits)@[c]@ + rep_line(
                        lineno,
                        count_in(matched@.take(j + 1 as int), c),
                    ) =~= (old(line_hits)@[c]@ + rep_line(
                        lineno,
                        count_in(matched@.take(j as int), c),
                    )).push(lineno));
                } else {
                    assert(rep_line(lineno, count_in(matched@.take(j + 1 as int), c)) == rep_line(
                        lineno,
                        count_in(matched@.take(j as int), c),
                    ));
                }
            }
        }
        j = j + 1;
    }
    assert(matched@.take(matched@.len() as int) =~= matched@);
}

/// Scans one file: per-candidate raw hit counts and recorded line numbers.
fn scan_file(ac: &aho_corasick::AhoCorasick, n: usize, text: &Vec<char>) -> (r: (
    Vec<usize>,
    Vec<Vec<usize>>,
))
    requires
        n == ac_patterns(*ac).len(),
        all_nonempty(ac_patterns(*ac)),
    ensures
        r.0@.len() == n,
        r.1@.len() == n,
        forall|c: int|
            0 <= c < n ==> r.0@[c] == file_total(entry_lms(ac_patterns(*ac), text@), c),
        forall|c: int|
            0 <= c < n ==> (#[trigger] r.1@[c])@ == file_line_hits(
                entry_lms(ac_patterns(*ac), text@),
                c,
            ),
        forall|c: int| 0 <= c < n ==> r.0@[c] <= text@.len(),
{
    let ghost pats = ac_patterns(*ac);
    let ghost lms = entry_lms(pats, text@);
    let tlen: usize = text.len();
    assert(text@.len() == tlen as int);
    let lines = split_lines(text);
    proof {
        lemma_lines_bound(text@);
        crate::lines::lemma_lens_sum_nonneg(spec_lines(text@));
    }
    let mut counts = zero_counts(n);
    let mut line_hits = empty_line_lists(n);
    let mut ln: usize = 0;
    while ln < lines.len()
        invariant
            ln <= lines@.len(),
            n == pats.len(),
            pats == ac_patterns(*ac),
            all_nonempty(pats),
            lms == entry_lms(pats, text@),
            views(lines@) == spec_lines(text@),
            lms.len() == lines@.len(),
            lens_sum(spec_lines(text@)) <= text@.len(),
            text@.len() <= usize::MAX,
            counts@.len() == n,
            line_hits@.len() == n,
            forall|c: int|
                0 <= c < n ==> counts@[c] == file_total(lms.take(ln as int), c),
            forall|c: int|
                0 <= c < n ==> (#[trigger] line_hits@[c])@ == file_line_hits(
                    lms.take(ln as int),
                    c,
                ),
            forall|i: int| 0 <= i < ln ==> (#[trigger] lms[i]).len() <= lines@[i]@.len(),
        decreases lines@.len() - ln,
    {
        let ms = ac_find_line(ac, &lines[ln]);
        proof {
            assert(lms[ln as int] == ac_matches(pats, lines@[ln as int]@));
            assert(ms@ == lms[ln as int]);
            // Raw counts stay within the file's character count.
            assert forall|c: int|
                0 <= c < n implies counts@[c] + count_in(ms@, c) <= usize::MAX by {
                lemma_file_total_bound(
                    lms.take(ln as int),
                    views(lines@).take(ln as int),
                    c,
                );
                lemma_count_le_len(ms@, c);
                crate::lines::lemma_lens_sum_take_le(views(lines@), ln + 1);
                assert(lens_sum(views(lines@).take(ln + 1)) == lens_sum(
                    views(lines@).take(ln as int),
                ) + lines@[ln as int]@.len()) by {
                    assert(views(lines@).take(ln + 1).drop_last() =~= views(lines@).take(
                        ln as int,
                    ));
                }
            }
        }
        let matched = aggregate_line(&ms, &mut counts);
        record_lines(&matched, ln + 1, &mut line_hits);
        proof {
            assert(lms.take(ln + 1 as int).drop_last() =~= lms.take(ln as int));
            assert(lms.take(ln + 1 as int).last() == lms[ln as int]);
            assert(lms.take(ln + 1 as int).len() == ln + 1);
            assert forall|c: int| 0 <= c < n implies counts@[c] == file_total(
                lms.take(ln + 1 as int),
                c,
            ) by {}
            assert forall|c: int| 0 <= c < n implies (#[trigger] line_hits@[c])@
                == file_line_hits(lms.take(ln + 1 as int), c) by {}
        }
        ln = ln + 1;
    }
    proof {
        assert(lms.take(lms.len() as int) =~= lms);
        assert forall|c: int| 0 <= c < n implies counts@[c] <= text@.len() by {
            lemma_file_total_bound(lms, views(lines@), c);
        }
    }
    (counts, line_hits)
}

/// Scans the whole corpus for all candidate values in a single pass.
/// Returns `None` exactly when the automaton could not be built; that is
/// fatal to the scan, and no partial result is returned.
pub fn scan_corpus(values: &Vec<Vec<char>>, corpus: &Vec<CorpusEntry>) -> (r: Option<
    Vec<MatchResult>,
>)
    requires
        all_nonempty(views(values@)),
        total_chars(corpus_views(corpus@)) <= usize::MAX,
    ensures
        (r is Some) == ac_buildable(views(values@)),
        r matches Some(rs) ==> {
            &&& rs@.len() == values@.len()
            &&& forall|c: int|
                0 <= c < values@.len() ==> match_result_model(
                    #[trigger] rs@[c],
                    views(values@),
                    corpus_views(corpus@),
                    c,
                )
        },
{
    let ac_opt = ac_build(values);
    let ac = match ac_opt {
        Some(ac) => ac,
        None => {
            return None;
        },
    };
    let ghost pats = views(values@);
    let ghost cv = corpus_views(corpus@);
    let n = values.len();
    let mut totals = zero_counts(n);
    let mut files = zero_counts(n);
    let mut locations = empty_loc_lists(n);
    let mut f: usize = 0;
    while f < corpus.len()
        invariant
            f <= corpus@.len(),
            n == pats.len(),
            pats == ac_patterns(ac),
            pats == views(values@),
            all_nonempty(pats),
            cv == corpus_views(corpus@),
            cv.len() == corpus@.len(),
            total_chars(cv) <= usize::MAX,
            totals@.len() == n,
            files@.len() == n,
            locations@.len() == n,
            forall|c: int|
                0 <= c < n ==> totals@[c] == corpus_total(pats, cv.take(f as int), c),
            forall|c: int|
                0 <= c < n ==> totals@[c] <= total_chars(cv.take(f as int)),
            forall|c: int|
                0 <= c < n ==> files@[c] == corpus_locs(pats, cv.take(f as int), c).len(),
            forall|c: int|
                0 <= c < n ==> views((#[trigger] locations@[c])@) == corpus_locs(
                    pats,
                    cv.take(f as int),
                    c,
                ),
            forall|c: int| 0 <= c < n ==> files@[c] <= f,
        decreases corpus@.len() - f,
    {
        proof {
            assert(cv[f as int] == corpus@[f as int]@);
        }
        let entry = &corpus[f];
        let (file_counts, line_hits) = scan_file(&ac, n, &entry.text);
        let ghost lms = entry_lms(pats, entry.text@);
        proof {
            assert(cv.take(f + 1 as int).drop_last() =~= cv.take(f as int));
            assert(cv.take(f + 1 as int).last() == cv[f as int]);
            lemma_total_chars_mono(cv, f + 1 as int);
            lemma_total_chars_nonneg(cv.take(f as int));
        }
        let mut c: usize = 0;
        while c < n
            invariant
                c <= n,
                n == pats.len(),
                pats == views(values@),
                cv.len() == corpus@.len(),
                f < cv.len(),
                f < usize::MAX,
                cv[f as int] == corpus@[f as int]@,
                lms == entry_lms(pats, corpus@[f as int]@.1),
                total_chars(cv) <= usize::MAX,
                total_chars(cv.take(f + 1 as int)) == total_chars(cv.take(f as int))
                    + corpus@[f as int]@.1.len(),
                total_chars(cv.take(f + 1 as int)) <= total_chars(cv),
                total_chars(cv.take(f as int)) >= 0,
                file_counts@.len() == n,
                line_hits@.len() == n,
                forall|k: int|
                    0 <= k < n ==> file_counts@[k] == file_total(lms, k),
                forall|k: int|
                    0 <= k < n ==> (#[trigger] line_hits@[k])@ == file_line_hits(lms, k),
                forall|k: int| 0 <= k < n ==> file_counts@[k] <= corpus@[f as int]@.1.len(),
                totals@.len() == n,
                files@.len() == n,
                locations@.len() == n,
                forall|k: int|
                    c <= k < n ==> totals@[k] == corpus_total(pats, cv.take(f as int), k),
                forall|k: int|
                    c <= k < n ==> totals@[k] <= total_chars(cv.take(f as int)),
                forall|k: int|
                    c <= k < n ==> files@[k] == corpus_locs(pats, cv.take(f as int), k).len(),
                forall|k: int|
                    c <= k < n ==> views((#[trigger] locations@[k])@) == corpus_locs(
                        pats,
                        cv.take(f as int),
                        k,
                    ),
                forall|k: int| c <= k < n ==> files@[k] <= f,
                forall|k: int|
                    0 <= k < c ==> totals@[k] == corpus_total(pats, cv.take(f + 1 as int), k),
                forall|k: int|
                    0 <= k < c ==> totals@[k] <= total_chars(cv.take(f + 1 as int)),
                forall|k: int|
                    0 <= k < c ==> files@[k] == corpus_locs(pats, cv.take(f + 1 as int), k).len(),
                forall|k: int|
                    0 <= k < c ==> views((#[trigger] locations@[k])@) == corpus_locs(
                        pats,
                        cv.take(f + 1 as int),
                        k,
                    ),
                forall|k: int| 0 <= k < c ==> files@[k] <= f + 1,
            decreases n - c,
        {
            let t = totals[c];
            totals[c] = t + file_counts[c];
            let lh = &line_hits[c];
            if lh.len() > 0 {
                let fc = files[c];
                files[c] = fc + 1;
                let mut lstr = clone_chars(&corpus[f].path);
                lstr.push(':');
                push_join_commas(&mut lstr, lh);
                assert(lstr@ == loc_string(cv[f as int].0, line_hits@[c as int]@));
                let ghost prev = locations@[c as int]@;
                let locc = &mut locations[c];
                locc.push(lstr);
                proof {
                    assert(views(locations@[c as int]@) =~= views(prev).push(
                        loc_string(cv[f as int].0, file_line_hits(lms, c as int)),
                    ));
                }
            }
            proof {
                assert(cv.take(f + 1 as int).drop_last() =~= cv.take(f as int));
                assert(cv.take(f + 1 as int).last() == cv[f as int]);
                assert(corpus_total(pats, cv.take(f + 1 as int), c as int) == corpus_total(
                    pats,
                    cv.take(f as int),
                    c as int,
                ) + file_total(lms, c as int));
                assert(corpus_locs(pats, cv.take(f + 1 as int), c as int) == (if file_line_hits(
                    lms,
                    c as int,
                ).len() > 0 {
                    corpus_locs(pats, cv.take(f as int), c as int).push(
                        loc_string(cv[f as int].0, file_line_hits(lms, c as int)),
                    )
                } else {
                    corpus_locs(pats, cv.take(f as int), c as int)
                }));
            }
            c = c + 1;
        }
        f = f + 1;
    }
    assert(cv.take(cv.len() as int) =~= cv);
    // Assemble the per-candidate results in order.
    let mut rs: Vec<MatchResult> = Vec::new();
    let mut c: usize = 0;
    while c < n
        invariant
            c <= n,
            n == pats.len(),
            pats == views(values@),
            cv == corpus_views(corpus@),
            totals@.len() == n,
            files@.len() == n,
            locations@.len() == n,
            forall|k: int| 0 <= k < n ==> totals@[k] == corpus_total(pats, cv, k),
            forall|k: int| 0 <= k < n ==> files@[k] == corpus_locs(pats, cv, k).len(),
            forall|k: int|
                0 <= k < n ==> views((#[trigger] locations@[k])@) == corpus_locs(pats, cv, k),
            rs@.len() == c,
            forall|k: int|
                0 <= k < c ==> match_result_model(#[trigger] rs@[k], pats, cv, k),
        decreases n - c,
    {
        let mut locs_c: Vec<Vec<char>> = Vec::new();
        let src = &locations[c];
        let mut j: usize = 0;
        while j < src.len()
            invariant
                j <= src@.len(),
                views(locs_c@) == views(src@).take(j as int),
            decreases src@.len() - j,
        {
            let c0 = clone_chars(&src[j]);
            assert(c0@ == src@[j as int]@);
            locs_c.push(c0);
            proof {
                assert(views(locs_c@) =~= views(src@).take(j as int).push(src@[j as int]@));
                assert(views(src@).take(j + 1 as int) =~= views(src@).take(j as int).push(
                    src@[j as int]@,
                ));
            }
            j = j + 1;
        }
        assert(views(src@).take(src@.len() as int) =~= views(src@));
        let r = MatchResult {
            files_with_hits: files[c],
            total_hits: totals[c],
            locations: locs_c,
        };
        rs.push(r);
        c = c + 1;
    }
    Some(rs)
}

proof fn lemma_count_zero_collapse(ms: Seq<usize>, c: int)
    requires
        count_in(ms, c) == 0,
    ensures
        count_in(collapse_runs(ms), c) == 0,
    decreases ms.len(),
{
    if ms.len() > 0 {
        lemma_count_zero_collapse(ms.drop_last(), c);
        let rest = collapse_runs(ms.drop_last());
        if !(rest.len() > 0 && rest.last() == ms.last()) {
            assert(rest.push(ms.last()).drop_last() =~= rest);
        }
    }
}

proof fn lemma_file_zero(lms: Seq<Seq<usize>>, c: int)
    requires
        file_total(lms, c) == 0,
    ensures
        file_line_hits(lms, c) == Seq::<usize>::empty(),
    decreases lms.len(),
{
    if lms.len() > 0 {
        lemma_file_zero(lms.drop_last(), c);
        lemma_count_zero_collapse(lms.last(), c);
        assert(file_line_hits(lms, c) =~= Seq::<usize>::empty());
    } else {
        assert(file_line_hits(lms, c) =~= Seq::<usize>::empty());
    }
}

/// A candidate with zero hits over the corpus also has no locations.
pub proof fn lemma_corpus_zero_locs(
    patterns: Seq<Seq<char>>,
    entries: Seq<(Seq<char>, Seq<char>)>,
    c: int,
)
    requires
        corpus_total(patterns, entries, c) == 0,
    ensures
        corpus_locs(patterns, entries, c) == Seq::<Seq<char>>::empty(),
    decreases entries.len(),
{
    if entries.len() > 0 {
        lemma_corpus_zero_locs(patterns, entries.drop_last(), c);
        lemma_file_zero(entry_lms(patterns, entries.last().1), c);
        assert(corpus_locs(patterns, entries, c) =~= Seq::<Seq<char>>::empty());
    } else {
        assert(corpus_locs(patterns, entries, c) =~= Seq::<Seq<char>>::empty());
    }
}

/// Law: the collapsed per-line match list holds no two adjacent equal
/// indices: each run of repeated matches of one pattern is recorded once.
pub proof fn lemma_collapse_no_adjacent(ms: Seq<usize>)
    ensures
        forall|i: int|
            0 <= i < collapse_runs(ms).len() - 1 ==> #[trigger] collapse_runs(ms)[i]
                != collapse_runs(ms)[i + 1],
    decreases ms.len(),
{
    if ms.len() > 0 {
        lemma_collapse_no_adjacent(ms.drop_last());
        let rest = collapse_runs(ms.drop_last());
        if !(rest.len() > 0 && rest.last() == ms.last()) {
            let whole = rest.push(ms.last());
            assert(forall|i: int|
                0 <= i < rest.len() - 1 ==> #[trigger] whole[i] == rest[i] && whole[i + 1]
                    == rest[i + 1]);
            if rest.len() > 0 {
                assert(whole[rest.len() - 1] == rest.last());
                assert(whole[rest.len() as int] == ms.last());
            }
        }
    }
}

/// Law: the match result counts cohere. A candidate is found in no more
/// files than it has hits: every file with a location contributes at least
/// one hit, and `files_with_hits` equals the number of location strings by
/// construction.
pub proof fn lemma_hits_at_least_files(
    patterns: Seq<Seq<char>>,
    entries: Seq<(Seq<char>, Seq<char>)>,
    c: int,
)
    ensures
        corpus_locs(patterns, entries, c).len() <= corpus_total(patterns, entries, c),
    decreases entries.len(),
{
    if entries.len() > 0 {
        lemma_hits_at_least_files(patterns, entries.drop_last(), c);
        let lms = entry_lms(patterns, entries.last().1);
        if file_line_hits(lms, c).len() > 0 {
            if file_total(lms, c) == 0 {
                lemma_file_zero(lms, c);
            }
        }
    }
}

} // verus!
