//! Report assembly: one row per candidate in gather order, a sentinel row
//! when nothing was gathered, and one extra-scans row whose status follows
//! the enable flag. The ordered row sequence is the system's sole output.

use vstd::prelude::*;

use crate::corpus::CorpusEntry;
use crate::extra::{
    extra_details, extra_files, extra_hits, extra_locs, extra_patterns_buildable, run_extra_scans,
    ExtraFinding, ExtraPatterns,
};
use crate::fmt::{dec_rep, fmt_locs_spec, format_locations, push_dec, views};
use crate::gather::{all_nonempty, CandidateKind, Candidates};
use crate::matcher::{
    ac_buildable, collapse_runs, corpus_locs, corpus_total, corpus_views, count_in,
    lemma_corpus_zero_locs, scan_corpus, total_chars, MatchResult,
};
use crate::text::{append_str_chars, string_of};

verus! {

/// The status column of a report row.
#[derive(Clone, Copy, PartialEq, Eq, Structural, Debug)]
pub enum Status {
    Found,
    NotFound,
    Skipped,
    NotApplicable,
}

/// One row of the report: category, value or description, status, details,
/// and the rendered location list.
#[derive(Debug, PartialEq)]
pub struct ReportRow {
    pub category: String,
    pub value: String,
    pub status: Status,
    pub details: String,
    pub locations: String,
}

/// The mathematical content of a report row.
pub ghost struct RowModel {
    pub category: Seq<char>,
    pub value: Seq<char>,
    pub status: Status,
    pub details: Seq<char>,
    pub locations: Seq<char>,
}

impl View for ReportRow {
    type V = RowModel;

    open spec fn view(&self) -> RowModel {
        RowModel {
            category: self.category@,
            value: self.value@,
            status: self.status,
            details: self.details@,
            locations: self.locations@,
        }
    }
}

/// The models of a sequence of rows.
pub open spec fn row_models(rows: Seq<ReportRow>) -> Seq<RowModel> {
    rows.map_values(|r: ReportRow| r@)
}

/// The category label of a candidate kind.
pub open spec fn kind_label(k: CandidateKind) -> Seq<char> {
    match k {
        CandidateKind::Username => "Username"@,
        CandidateKind::Hostname => "Hostname"@,
        CandidateKind::IpAddress => "IP"@,
    }
}

/// The status column text.
pub open spec fn status_label(s: Status) -> Seq<char> {
    match s {
        Status::Found => "Found"@,
        Status::NotFound => "Not found"@,
        Status::Skipped => "Skipped"@,
        Status::NotApplicable => "N/A"@,
    }
}

impl Status {
    /// The text this status shows in the rendered table.
    pub fn label(&self) -> (r: String)
        ensures
            r@ == status_label(*self),
    {
        match self {
            Status::Found => "Found".to_owned(),
            Status::NotFound => "Not found".to_owned(),
            Status::Skipped => "Skipped".to_owned(),
            Status::NotApplicable => "N/A".to_owned(),
        }
    }
}

/// The details column of a found candidate: `"{files} files, {hits} hits"`.
pub open spec fn hits_details(files: nat, hits: nat) -> Seq<char> {
    dec_rep(files) + " files, "@ + dec_rep(hits) + " hits"@
}

/// The model of the row for candidate `c`.
pub open spec fn candidate_row_model(
    kind: CandidateKind,
    value: Seq<char>,
    patterns: Seq<Seq<char>>,
    entries: Seq<(Seq<char>, Seq<char>)>,
    c: int,
) -> RowModel {
    let total = corpus_total(patterns, entries, c);
    let locs = corpus_locs(patterns, entries, c);
    RowModel {
        category: kind_label(kind),
        value: value,
        status: if total > 0 {
            Status::Found
        } else {
            Status::NotFound
        },
        details: if total > 0 {
            hits_details(locs.len(), total)
        } else {
            "not found"@
        },
        locations: fmt_locs_spec(locs),
    }
}

/// The sentinel row emitted when no candidate was gathered.
pub open spec fn sentinel_row_model() -> RowModel {
    RowModel {
        category: "Scan"@,
        value: "No candidates"@,
        status: Status::NotApplicable,
        details: "0"@,
        locations: ""@,
    }
}

/// The extra-scans row when the extra scan is disabled.
pub open spec fn extras_skipped_row_model() -> RowModel {
    RowModel {
        category: "Extra scans"@,
        value: "secrets, PEM, leak-files, docs/examples/tests"@,
        status: Status::Skipped,
        details: "Run with: `run_checks checks-extras`"@,
        locations: ""@,
    }
}

/// The extra-scans row when the extra scan ran.
pub open spec fn extras_run_row_model(
    entries: Seq<(Seq<char>, Seq<char>)>,
    paths: Seq<Seq<char>>,
) -> RowModel {
    let found = extra_files(entries, paths).len() != 0;
    RowModel {
        category: "Extra scans"@,
        value: "secrets, PEM, leak-files, docs/examples/tests"@,
        status: if found {
            Status::Found
        } else {
            Status::NotFound
        },
        details: extra_details(found, extra_files(entries, paths).len(), extra_hits(entries, paths) as nat),
        locations: fmt_locs_spec(extra_locs(entries, paths)),
    }
}

/// The whole report: one row per candidate in gather order, or the single
/// sentinel row when none was gathered; then exactly one extra-scans row.
pub open spec fn spec_report(
    kinds: Seq<CandidateKind>,
    values: Seq<Seq<char>>,
    entries: Seq<(Seq<char>, Seq<char>)>,
    paths: Seq<Seq<char>>,
    run_extras: bool,
) -> Seq<RowModel> {
    let base = if values.len() == 0 {
        seq![sentinel_row_model()]
    } else {
        Seq::new(
            values.len(),
            |i: int| candidate_row_model(kinds[i], values[i], values, entries, i),
        )
    };
    let extras = if run_extras {
        extras_run_row_model(entries, paths)
    } else {
        extras_skipped_row_model()
    };
    base.push(extras)
}

/// The row for one candidate, from its kind, value, and match result.
fn candidate_row(kind: CandidateKind, value: &Vec<char>, res: &MatchResult) -> (row: ReportRow)
    ensures
        row@.category == kind_label(kind),
        row@.value == value@,
        row@.status == if res.total_hits > 0 {
            Status::Found
        } else {
            Status::NotFound
        },
        row@.details == if res.total_hits > 0 {
            hits_details(res.files_with_hits as nat, res.total_hits as nat)
        } else {
            "not found"@
        },
        row@.locations == fmt_locs_spec(views(res.locations@)),
{
    let category = match kind {
        CandidateKind::Username => "Username".to_owned(),
        CandidateKind::Hostname => "Hostname".to_owned(),
        CandidateKind::IpAddress => "IP".to_owned(),
    };
    let found = res.total_hits > 0;
    let status = if found {
        Status::Found
    } else {
        Status::NotFound
    };
    let details = if found {
        let mut out: Vec<char> = Vec::new();
        push_dec(&mut out, res.files_with_hits);
        append_str_chars(&mut out, " files, ");
        push_dec(&mut out, res.total_hits);
        append_str_chars(&mut out, " hits");
        string_of(&out)
    } else {
        "not found".to_owned()
    };
    ReportRow {
        category,
        value: string_of(value),
        status,
        details,
        locations: format_locations(&res.locations),
    }
}

/// The sentinel row for a scan without candidates.
fn sentinel_row() -> (row: ReportRow)
    ensures
        row@ == sentinel_row_model(),
{
    ReportRow {
        category: "Scan".to_owned(),
        value: "No candidates".to_owned(),
        status: Status::NotApplicable,
        details: "0".to_owned(),
        locations: "".to_owned(),
    }
}

/// The extra-scans row for a disabled extra scan.
fn extras_skipped_row() -> (row: ReportRow)
    ensures
        row@ == extras_skipped_row_model(),
{
    ReportRow {
        category: "Extra scans".to_owned(),
        value: "secrets, PEM, leak-files, docs/examples/tests".to_owned(),
        status: Status::Skipped,
        details: "Run with: `run_checks checks-extras`".to_owned(),
        locations: "".to_owned(),
    }
}

/// The extra-scans row for a finding.
fn extras_row(finding: &ExtraFinding) -> (row: ReportRow)
    ensures
        row@.category == "Extra scans"@,
        row@.value == "secrets, PEM, leak-files, docs/examples/tests"@,
        row@.status == if finding.found {
            Status::Found
        } else {
            Status::NotFound
        },
        row@.details == extra_details(finding.found, finding.files as nat, finding.hits as nat),
        row@.locations == fmt_locs_spec(views(finding.locations@)),
{
    ReportRow {
        category: "Extra scans".to_owned(),
        value: "secrets, PEM, leak-files, docs/examples/tests".to_owned(),
        status: if finding.found {
            Status::Found
        } else {
            Status::NotFound
        },
        details: finding.details(),
        locations: format_locations(&finding.locations),
    }
}

/// Builds the whole report. Returns `None` exactly when a pattern
/// automaton or one of the fixed regexes could not be built; that is fatal
/// and yields no partial report. The corpus and path list must fit in
/// memory, which the two size bounds state.
pub fn build_report(
    cands: &Candidates,
    corpus: &Vec<CorpusEntry>,
    all_paths: &Vec<Vec<char>>,
    run_extras: bool,
) -> (r: Option<Vec<ReportRow>>)
    requires
        cands.wf(),
        total_chars(corpus_views(corpus@)) <= usize::MAX,
        2 * total_chars(corpus_views(corpus@)) + all_paths@.len() <= usize::MAX,
    ensures
        (r is Some) <==> ((cands.values_model().len() == 0 || ac_buildable(cands.values_model()))
            && (run_extras ==> extra_patterns_buildable())),
        r matches Some(rows) ==> row_models(rows@) == spec_report(
            cands.kinds_model(),
            cands.values_model(),
            corpus_views(corpus@),
            views(all_paths@),
            run_extras,
        ),
{
    let ghost cv = corpus_views(corpus@);
    let ghost pv = views(all_paths@);
    let ghost km = cands.kinds_model();
    let ghost vm = cands.values_model();
    let (kinds, values) = cands.rows();
    let extras: ReportRow = if run_extras {
        let pats = match ExtraPatterns::build() {
            Some(p) => p,
            None => {
                return None;
            },
        };
        let finding = run_extra_scans(&pats, corpus, all_paths);
        extras_row(&finding)
    } else {
        extras_skipped_row()
    };
    assert(extras@ == if run_extras {
        extras_run_row_model(cv, pv)
    } else {
        extras_skipped_row_model()
    });

    let mut rows: Vec<ReportRow> = Vec::new();
    if values.len() == 0 {
        rows.push(sentinel_row());
        rows.push(extras);
        proof {
            assert(row_models(rows@) =~= spec_report(km, vm, cv, pv, run_extras));
        }
        return Some(rows);
    }
    proof {
        assert(all_nonempty(vm)) by {
            assert(forall|i: int|
                0 <= i < cands.usernames.model().len() ==> (#[trigger] vm[i])
                    == cands.usernames.model()[i]);
        }
    }
    let results = match scan_corpus(&values, corpus) {
        Some(rs) => rs,
        None => {
            return None;
        },
    };
    let mut i: usize = 0;
    while i < values.len()
        invariant
            i <= values@.len(),
            km == cands.kinds_model(),
            vm == cands.values_model(),
            kinds@ == km,
            views(values@) == vm,
            km.len() == vm.len(),
            cv == corpus_views(corpus@),
            results@.len() == vm.len(),
            forall|c: int|
                0 <= c < vm.len() ==> crate::matcher::match_result_model(
                    #[trigger] results@[c],
                    vm,
                    cv,
                    c,
                ),
            rows@.len() == i,
            forall|c: int|
                0 <= c < i ==> (#[trigger] rows@[c])@ == candidate_row_model(
                    km[c],
                    vm[c],
                    vm,
                    cv,
                    c,
                ),
        decreases values@.len() - i,
    {
        let row = candidate_row(kinds[i], &values[i], &results[i]);
        proof {
            let c = i as int;
            assert(views(values@)[c] == values@[c]@);
            assert(results@[c].files_with_hits == corpus_locs(vm, cv, c).len());
        }
        rows.push(row);
        i = i + 1;
    }
    rows.push(extras);
    proof {
        assert(row_models(rows@) =~= spec_report(km, vm, cv, pv, run_extras));
    }
    Some(rows)
}

/// The overall outcome the surrounding tool runner composes: true exactly
/// when every tool reported success.
pub fn all_succeeded(oks: &Vec<bool>) -> (r: bool)
    ensures
        r == (forall|i: int| 0 <= i < oks@.len() ==> oks@[i]),
{
    let mut i: usize = 0;
    while i < oks.len()
        invariant
            i <= oks@.len(),
            forall|j: int| 0 <= j < i ==> oks@[j],
        decreases oks@.len() - i,
    {
        if !oks[i] {
            return false;
        }
        i = i + 1;
    }
    true
}

// ---- Laws ----

/// Law: a candidate with zero occurrences in the whole corpus gets status
/// `NotFound`, empty locations, and details `"not found"`.
pub proof fn lemma_not_found_row(
    kind: CandidateKind,
    value: Seq<char>,
    patterns: Seq<Seq<char>>,
    entries: Seq<(Seq<char>, Seq<char>)>,
    c: int,
)
    requires
        corpus_total(patterns, entries, c) == 0,
    ensures
        candidate_row_model(kind, value, patterns, entries, c).status == Status::NotFound,
        candidate_row_model(kind, value, patterns, entries, c).details == "not found"@,
        candidate_row_model(kind, value, patterns, entries, c).locations
            == Seq::<char>::empty(),
{
    lemma_corpus_zero_locs(patterns, entries, c);
}

/// Law: a candidate matching only in runs of adjacent matches on one line
/// records that line once per run: a match list holding one value over and
/// over collapses to that value alone, however many raw hits it counts.
pub proof fn lemma_same_line_recorded_once(ms: Seq<usize>, v: usize)
    requires
        ms.len() > 0,
        forall|k: int| 0 <= k < ms.len() ==> ms[k] == v,
    ensures
        collapse_runs(ms) == seq![v],
        count_in(ms, v as int) == ms.len(),
    decreases ms.len(),
{
    assert(ms[ms.len() - 1] == v);
    if ms.len() == 1 {
        assert(ms.drop_last().len() == 0);
        assert(collapse_runs(ms.drop_last()) =~= Seq::<usize>::empty());
        assert(count_in(ms.drop_last(), v as int) == 0);
        assert(collapse_runs(ms) =~= seq![v]);
    } else {
        assert(forall|k: int| 0 <= k < ms.drop_last().len() ==> ms.drop_last()[k] == v);
        lemma_same_line_recorded_once(ms.drop_last(), v);
    }
}

/// Law: with no gathered candidates the report holds exactly one
/// candidate-area row, the sentinel, before the extra-scans row.
pub proof fn lemma_empty_candidates_report(
    kinds: Seq<CandidateKind>,
    entries: Seq<(Seq<char>, Seq<char>)>,
    paths: Seq<Seq<char>>,
    run_extras: bool,
)
    ensures
        spec_report(kinds, Seq::empty(), entries, paths, run_extras).len() == 2,
        spec_report(kinds, Seq::empty(), entries, paths, run_extras)[0]
            == sentinel_row_model(),
{
}

/// Law: the report is a function of the gathered candidates, the corpus,
/// the walked paths, and the enable flag alone, so two scans over an
/// unmodified corpus yield identical rows.
pub proof fn lemma_scan_deterministic(
    rows1: Seq<RowModel>,
    rows2: Seq<RowModel>,
    kinds: Seq<CandidateKind>,
    values: Seq<Seq<char>>,
    entries: Seq<(Seq<char>, Seq<char>)>,
    paths: Seq<Seq<char>>,
    run_extras: bool,
)
    requires
        rows1 == spec_report(kinds, values, entries, paths, run_extras),
        rows2 == spec_report(kinds, values, entries, paths, run_extras),
    ensures
        rows1 == rows2,
{
}

proof fn lemma_leak_files_member(paths: Seq<Seq<char>>, k: int)
    requires
        0 <= k < paths.len(),
        crate::corpus::spec_is_leak(paths[k]),
    ensures
        crate::extra::leak_files(paths).contains(paths[k]),
    decreases paths.len(),
{
    if k == paths.len() - 1 {
    } else {
        lemma_leak_files_member(paths.drop_last(), k);
    }
}

proof fn lemma_word_files_finite(entries: Seq<(Seq<char>, Seq<char>)>)
    ensures
        crate::extra::word_files(entries).finite(),
    decreases entries.len(),
{
    if entries.len() > 0 {
        lemma_word_files_finite(entries.drop_last());
    }
}

proof fn lemma_leak_files_finite(paths: Seq<Seq<char>>)
    ensures
        crate::extra::leak_files(paths).finite(),
    decreases paths.len(),
{
    if paths.len() > 0 {
        lemma_leak_files_finite(paths.drop_last());
    }
}

proof fn lemma_pii_files_finite(entries: Seq<(Seq<char>, Seq<char>)>)
    ensures
        crate::extra::pii_files(entries).finite(),
    decreases entries.len(),
{
    if entries.len() > 0 {
        lemma_pii_files_finite(entries.drop_last());
    }
}

/// Law: a leak-prone file name anywhere among the walked paths makes the
/// extra scan report `Found`, whatever the file holds.
pub proof fn lemma_leak_file_found(
    entries: Seq<(Seq<char>, Seq<char>)>,
    paths: Seq<Seq<char>>,
    k: int,
)
    requires
        0 <= k < paths.len(),
        crate::corpus::spec_is_leak(paths[k]),
    ensures
        extra_files(entries, paths).len() != 0,
        extras_run_row_model(entries, paths).status == Status::Found,
{
    lemma_leak_files_member(paths, k);
    lemma_word_files_finite(entries);
    lemma_leak_files_finite(paths);
    lemma_pii_files_finite(entries);
    let s = extra_files(entries, paths);
    assert(s.contains(paths[k]));
    assert(s.finite());
    assert(s.remove(paths[k]).len() + 1 == s.len());
}

/// Law: the PII sub-scan records lines only for files under a docs,
/// examples, or tests directory; an unscoped file contributes nothing,
/// whatever its text holds.
pub proof fn lemma_pii_scoped_only(p: Seq<char>, t: Seq<char>)
    requires
        !crate::corpus::spec_in_scoped_dir(p),
    ensures
        crate::extra::pii_file_nums((p, t)) == Seq::<usize>::empty(),
{
}

/// Law: for a scoped file the PII sub-scan counts exactly the lines the
/// PII pattern flags.
pub proof fn lemma_pii_scoped_counted(p: Seq<char>, t: Seq<char>)
    requires
        crate::corpus::spec_in_scoped_dir(p),
    ensures
        crate::extra::pii_file_nums((p, t)) == crate::extra::pii_line_nums(
            crate::lines::spec_lines(t),
        ),
{
}

} // verus!
