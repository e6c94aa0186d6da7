use run_checks::corpus::CorpusEntry;
use run_checks::gather::{CandidateKind, Candidates};
use run_checks::report::{build_report, ReportRow, Status};
use run_checks::text::chars_of;

fn paths_of(ps: &[&str]) -> Vec<Vec<char>> {
    ps.iter().map(|p| chars_of(p)).collect()
}

fn one_candidate(name: &str) -> Candidates {
    let mut cands = Candidates::new();
    cands.usernames.add_trimmed(name);
    cands
}

fn report(
    cands: &Candidates,
    files: &[(&str, &str)],
    paths: &[&str],
    extras: bool,
) -> Vec<ReportRow> {
    let corpus: Vec<CorpusEntry> = files.iter().map(|(p, t)| CorpusEntry::new(p, t)).collect();
    let all_paths = paths_of(paths);
    build_report(cands, &corpus, &all_paths, extras).expect("pattern build failed")
}

#[test]
fn not_found_candidate_row() {
    let cands = one_candidate("zebra");
    let rows = report(&cands, &[("a.rs", "hello\nworld\n")], &["a.rs"], false);
    assert_eq!(rows.len(), 2);
    assert_eq!(rows[0].category, "Username");
    assert_eq!(rows[0].value, "zebra");
    assert_eq!(rows[0].status, Status::NotFound);
    assert_eq!(rows[0].details, "not found");
    assert_eq!(rows[0].locations, "");
}

#[test]
fn one_hit_in_each_of_two_files() {
    let cands = one_candidate("bob");
    let a = "l1\nl2\nl3\nl4\nl5\nl6\nbob was here\n";
    let b = "x\nx\nx\nx\nx\nx\nx\nx\nx\nx\nx\nsay hi to bob\n";
    let rows = report(&cands, &[("a.rs", a), ("b.rs", b)], &["a.rs", "b.rs"], false);
    assert_eq!(rows[0].status, Status::Found);
    assert_eq!(rows[0].details, "2 files, 2 hits");
    assert_eq!(rows[0].locations, "a.rs:7 | b.rs:12");
}

#[test]
fn two_hits_on_one_line_record_the_line_once() {
    let cands = one_candidate("bob");
    let a = "l1\nl2\nbob met bob\n";
    let rows = report(&cands, &[("a.rs", a)], &["a.rs"], false);
    assert_eq!(rows[0].status, Status::Found);
    assert_eq!(rows[0].details, "1 files, 2 hits");
    assert_eq!(rows[0].locations, "a.rs:3");
}

#[test]
fn more_than_five_files_truncate_locations() {
    let cands = one_candidate("bob");
    let files: Vec<(String, String)> = (1..=7)
        .map(|i| (format!("f{i}.rs"), "bob\n".to_string()))
        .collect();
    let file_refs: Vec<(&str, &str)> =
        files.iter().map(|(p, t)| (p.as_str(), t.as_str())).collect();
    let paths: Vec<&str> = files.iter().map(|(p, _)| p.as_str()).collect();
    let rows = report(&cands, &file_refs, &paths, false);
    assert_eq!(rows[0].details, "7 files, 7 hits");
    assert_eq!(
        rows[0].locations,
        "f1.rs:1 | f2.rs:1 | f3.rs:1 | f4.rs:1 | f5.rs:1 | +2 more files"
    );
}

#[test]
fn empty_candidates_give_one_sentinel_row() {
    let cands = Candidates::new();
    let rows = report(&cands, &[("a.rs", "hello\n")], &["a.rs"], false);
    assert_eq!(rows.len(), 2);
    assert_eq!(rows[0].category, "Scan");
    assert_eq!(rows[0].value, "No candidates");
    assert_eq!(rows[0].status, Status::NotApplicable);
    assert_eq!(rows[0].details, "0");
    assert_eq!(rows[0].locations, "");
}

#[test]
fn extras_row_skipped_when_disabled() {
    let cands = Candidates::new();
    let rows = report(&cands, &[], &[], false);
    let last = rows.last().unwrap();
    assert_eq!(last.category, "Extra scans");
    assert_eq!(last.value, "secrets, PEM, leak-files, docs/examples/tests");
    assert_eq!(last.status, Status::Skipped);
    assert_eq!(last.details, "Run with: `run_checks checks-extras`");
    assert_eq!(last.locations, "");
}

#[test]
fn extras_row_not_found_on_clean_corpus() {
    let cands = Candidates::new();
    let rows = report(&cands, &[("a.rs", "clean code\n")], &["a.rs"], true);
    let last = rows.last().unwrap();
    assert_eq!(last.status, Status::NotFound);
    assert_eq!(last.details, "not found");
    assert_eq!(last.locations, "");
}

#[test]
fn dotenv_file_is_found_even_when_empty() {
    let cands = Candidates::new();
    let rows = report(&cands, &[], &["./sub/.env"], true);
    let last = rows.last().unwrap();
    assert_eq!(last.status, Status::Found);
    assert_eq!(last.details, "1 files, 1 findings");
    assert_eq!(last.locations, "./sub/.env");
}

#[test]
fn pii_counted_only_under_scoped_dirs() {
    let cands = Candidates::new();
    let rows = report(
        &cands,
        &[
            ("tests/readme.md", "contact email here\n"),
            ("src/lib.rs", "contact email here\n"),
        ],
        &["tests/readme.md", "src/lib.rs"],
        true,
    );
    let last = rows.last().unwrap();
    assert_eq!(last.status, Status::Found);
    assert_eq!(last.details, "1 files, 1 findings");
    assert_eq!(last.locations, "tests/readme.md:1");
}

#[test]
fn secret_word_flags_the_line() {
    let cands = Candidates::new();
    let rows = report(
        &cands,
        &[("conf.toml", "title = 1\npassword = \"x\"\n")],
        &["conf.toml"],
        true,
    );
    let last = rows.last().unwrap();
    assert_eq!(last.status, Status::Found);
    assert_eq!(last.details, "1 files, 1 findings");
    assert_eq!(last.locations, "conf.toml:2");
}

#[test]
fn scan_is_idempotent() {
    let mut cands = Candidates::new();
    cands.usernames.add_trimmed("bob");
    cands.hostnames.add_trimmed("myhost");
    cands.ips.add_trimmed("10.0.0.5");
    let files = [
        ("a.rs", "bob\nmyhost and bob\n"),
        ("docs/guide.md", "an email for bob: bob@myhost\n"),
        ("b.sh", "curl 10.0.0.5\n"),
    ];
    let paths = ["a.rs", "docs/guide.md", "b.sh", "./certs/server.pem"];
    let rows1 = report(&cands, &files, &paths, true);
    let rows2 = report(&cands, &files, &paths, true);
    assert_eq!(rows1, rows2);
}

#[test]
fn rows_come_in_kind_order_with_values_sorted() {
    let mut cands = Candidates::new();
    cands.usernames.add_trimmed("zoe");
    cands.usernames.add_trimmed("amy");
    cands.hostnames.add_trimmed("box");
    cands.ips.add_trimmed("10.0.0.5");
    let (kinds, values) = cands.rows();
    assert_eq!(
        kinds,
        vec![
            CandidateKind::Username,
            CandidateKind::Username,
            CandidateKind::Hostname,
            CandidateKind::IpAddress
        ]
    );
    assert_eq!(values[0], chars_of("amy"));
    assert_eq!(values[1], chars_of("zoe"));
    assert_eq!(values[2], chars_of("box"));
    assert_eq!(values[3], chars_of("10.0.0.5"));

    let rows = report(&cands, &[("a.rs", "amy\n")], &["a.rs"], false);
    assert_eq!(rows[0].category, "Username");
    assert_eq!(rows[0].value, "amy");
    assert_eq!(rows[1].value, "zoe");
    assert_eq!(rows[2].category, "Hostname");
    assert_eq!(rows[3].category, "IP");
    assert_eq!(rows[0].status, Status::Found);
    assert_eq!(rows[1].status, Status::NotFound);
}

#[test]
fn crlf_lines_keep_line_numbers() {
    let cands = one_candidate("bob");
    let rows = report(&cands, &[("a.rs", "one\r\nbob\r\nthree\r\n")], &["a.rs"], false);
    assert_eq!(rows[0].locations, "a.rs:2");
    assert_eq!(rows[0].details, "1 files, 1 hits");
}

#[test]
fn empty_corpus_candidate_not_found() {
    let cands = one_candidate("bob");
    let rows = report(&cands, &[], &[], false);
    assert_eq!(rows[0].status, Status::NotFound);
    assert_eq!(rows[0].details, "not found");
}

#[test]
fn sentinel_and_leak_file_together() {
    let cands = Candidates::new();
    let rows = report(&cands, &[], &["id_rsa"], true);
    assert_eq!(rows.len(), 2);
    assert_eq!(rows[0].category, "Scan");
    assert_eq!(rows[1].status, Status::Found);
    assert_eq!(rows[1].locations, "id_rsa");
}

#[test]
fn several_lines_of_one_file_join_with_commas() {
    let cands = one_candidate("bob");
    let rows = report(&cands, &[("a.rs", "bob\nx\nbob\n")], &["a.rs"], false);
    assert_eq!(rows[0].details, "1 files, 2 hits");
    assert_eq!(rows[0].locations, "a.rs:1,3");
}

#[test]
fn only_adjacent_repeats_are_collapsed() {
    // With another candidate matching in between, the two hits of the first
    // are not adjacent in match order, so its line is recorded twice.
    let mut cands = Candidates::new();
    cands.usernames.add_trimmed("amy");
    cands.usernames.add_trimmed("bob");
    let rows = report(&cands, &[("a.rs", "amy bob amy\n")], &["a.rs"], false);
    assert_eq!(rows[0].value, "amy");
    assert_eq!(rows[0].details, "1 files, 2 hits");
    assert_eq!(rows[0].locations, "a.rs:1,1");
    assert_eq!(rows[1].value, "bob");
    assert_eq!(rows[1].details, "1 files, 1 hits");
    assert_eq!(rows[1].locations, "a.rs:1");
}
