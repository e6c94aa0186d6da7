use run_checks::corpus::CorpusEntry;
use run_checks::defaults::default_action_cells;
use run_checks::display::collect_all_rs;
use run_checks::report::{all_succeeded, Status};
use run_checks::corpus::{is_allowed_file, is_leak_file, in_scoped_dir, should_skip_dir, within_size_cap};
use run_checks::fmt::{format_locations, join_usize};
use run_checks::gather::{ipv4_is_candidate, ipv6_is_candidate, Candidates};
use run_checks::lines::split_lines;
use run_checks::text::{chars_of, string_of, trim_chars};
use run_checks::tree::{collect_tree, TreeEntry};
use run_checks::util::strip_ansi_sgr;

#[test]
fn strip_removes_sgr_sequences() {
    assert_eq!(strip_ansi_sgr("\u{1b}[32mGreen\u{1b}[0m"), "Green");
    assert_eq!(strip_ansi_sgr("plain text"), "plain text");
    assert_eq!(strip_ansi_sgr("a\u{1b}[1;31mb\u{1b}[mc"), "abc");
    assert_eq!(strip_ansi_sgr("tail\u{1b}["), "tail");
    assert_eq!(strip_ansi_sgr(""), "");
}

#[test]
fn join_usize_is_comma_separated() {
    assert_eq!(join_usize(&vec![1, 2, 3]), "1,2,3");
    assert_eq!(join_usize(&vec![42]), "42");
    assert_eq!(join_usize(&vec![]), "");
    assert_eq!(join_usize(&vec![10, 100, 1000]), "10,100,1000");
}

#[test]
fn allowed_files_by_extension() {
    assert!(is_allowed_file("src/a.rs"));
    assert!(is_allowed_file("./README.md"));
    assert!(is_allowed_file("run.sh"));
    assert!(is_allowed_file("Cargo.toml"));
    assert!(!is_allowed_file("a.txt"));
    assert!(!is_allowed_file(".env"));
    assert!(!is_allowed_file("noext"));
    assert!(is_allowed_file("a.tar.md"));
}

#[test]
fn skip_list_directories() {
    assert!(should_skip_dir("./target"));
    assert!(should_skip_dir("a/b/.git"));
    assert!(should_skip_dir("node_modules"));
    assert!(!should_skip_dir("./src"));
    assert!(!should_skip_dir("targets"));
}

#[test]
fn size_cap_is_one_megabyte() {
    assert!(within_size_cap(0));
    assert!(within_size_cap(1_000_000));
    assert!(!within_size_cap(1_000_001));
}

#[test]
fn leak_prone_file_names() {
    assert!(is_leak_file(&chars_of(".env")));
    assert!(is_leak_file(&chars_of("sub/.env.local")));
    assert!(is_leak_file(&chars_of(".envrc")));
    assert!(is_leak_file(&chars_of("id_rsa")));
    assert!(is_leak_file(&chars_of("keys/id_rsa.pub")));
    assert!(is_leak_file(&chars_of("id_ed25519")));
    assert!(is_leak_file(&chars_of("certs/server.pem")));
    assert!(is_leak_file(&chars_of("a.p12")));
    assert!(is_leak_file(&chars_of("a.crt")));
    assert!(is_leak_file(&chars_of("a.key")));
    assert!(is_leak_file(&chars_of("home/.kube/config")));
    assert!(is_leak_file(&chars_of(".npmrc")));
    assert!(is_leak_file(&chars_of(".pypirc")));
    assert!(is_leak_file(&chars_of(".netrc")));
    assert!(is_leak_file(&chars_of(".git-credentials")));
    assert!(is_leak_file(&chars_of(".aws")));
    assert!(!is_leak_file(&chars_of("main.rs")));
    assert!(!is_leak_file(&chars_of("kubeconfig.md")));
}

#[test]
fn pii_scope_is_docs_examples_tests() {
    assert!(in_scoped_dir(&chars_of("docs/a.md")));
    assert!(in_scoped_dir(&chars_of("x/Docs/a.md")));
    assert!(in_scoped_dir(&chars_of("examples/e.rs")));
    assert!(in_scoped_dir(&chars_of("crate/tests/t.rs")));
    assert!(!in_scoped_dir(&chars_of("src/lib.rs")));
    assert!(!in_scoped_dir(&chars_of("src/docstring.rs")));
    assert!(!in_scoped_dir(&chars_of("mydocs/a.md")));
}

#[test]
fn trimming_strips_whitespace() {
    assert_eq!(trim_chars(&chars_of("  bob \n")), chars_of("bob"));
    assert_eq!(trim_chars(&chars_of("\t\r\n ")), chars_of(""));
    assert_eq!(trim_chars(&chars_of("a b")), chars_of("a b"));
}

#[test]
fn line_splitting_matches_str_lines() {
    let cases = ["a\nb\n", "a\nb", "", "\n", "a\r\nb\r\n", "last\r"];
    for case in cases {
        let got: Vec<String> = split_lines(&chars_of(case))
            .iter()
            .map(|l| string_of(l))
            .collect();
        let want: Vec<String> = case.lines().map(|l| l.to_string()).collect();
        assert_eq!(got, want, "case {case:?}");
    }
}

#[test]
fn location_list_truncates_after_five() {
    let locs: Vec<Vec<char>> = (1..=6).map(|i| chars_of(&format!("f{i}"))).collect();
    assert_eq!(format_locations(&locs), "f1 | f2 | f3 | f4 | f5 | +1 more files");
    let short: Vec<Vec<char>> = vec![chars_of("a"), chars_of("b")];
    assert_eq!(format_locations(&short), "a | b");
    assert_eq!(format_locations(&Vec::new()), "");
}

#[test]
fn candidate_sets_deduplicate_and_sort() {
    let mut cands = Candidates::new();
    cands.usernames.add_trimmed(" bob ");
    cands.usernames.add_trimmed("alice");
    cands.usernames.add_trimmed("bob");
    cands.usernames.add_trimmed("   ");
    assert_eq!(cands.usernames.items, vec![chars_of("alice"), chars_of("bob")]);
    assert_eq!(cands.usernames.len(), 2);
}

#[test]
fn user_dir_entries_filter_hidden_names_only() {
    let mut cands = Candidates::new();
    cands.usernames.add_user_dir_entry(".hidden");
    cands.usernames.add_user_dir_entry("a");
    cands.usernames.add_user_dir_entry("ab");
    assert_eq!(cands.usernames.items, vec![chars_of("a"), chars_of("ab")]);
}

#[test]
fn nonempty_values_only() {
    let mut cands = Candidates::new();
    cands.hostnames.add_nonempty("");
    cands.hostnames.add_nonempty("host1");
    assert_eq!(cands.hostnames.items, vec![chars_of("host1")]);
}

#[test]
fn ipv4_filtering() {
    assert!(!ipv4_is_candidate(&[127, 0, 0, 1]));
    assert!(!ipv4_is_candidate(&[127, 255, 0, 7]));
    assert!(!ipv4_is_candidate(&[169, 254, 3, 4]));
    assert!(ipv4_is_candidate(&[192, 168, 1, 1]));
    assert!(ipv4_is_candidate(&[169, 253, 0, 1]));
    assert!(ipv4_is_candidate(&[8, 8, 8, 8]));
}

#[test]
fn ipv6_filtering_excludes_loopback_and_link_local_only() {
    assert!(!ipv6_is_candidate(&[0, 0, 0, 0, 0, 0, 0, 1]));
    assert!(!ipv6_is_candidate(&[0xfe80, 0, 0, 0, 0, 0, 0, 9]));
    assert!(!ipv6_is_candidate(&[0xfebf, 0, 0, 0, 0, 0, 0, 9]));
    assert!(ipv6_is_candidate(&[0xfd00, 0, 0, 0, 0, 0, 0, 2]));
    assert!(ipv6_is_candidate(&[0xfc01, 0, 0, 0, 0, 0, 0, 1]));
    assert!(ipv6_is_candidate(&[0x2001, 0xdb8, 0, 0, 0, 0, 0, 1]));
}

#[test]
fn tree_listing_format() {
    let entries = vec![
        TreeEntry { path: chars_of("./src"), level: 0, is_dir: true },
        TreeEntry { path: chars_of("./src/lib.rs"), level: 1, is_dir: false },
        TreeEntry { path: chars_of("./src/notes.txt"), level: 1, is_dir: false },
        TreeEntry { path: chars_of("./src/deep"), level: 3, is_dir: true },
    ];
    let out = collect_tree(&entries, 2);
    let want = "Directory structure (allowed files only, up to 2 levels):\n[DIR]  ./src\n  [FILE] ./src/lib.rs\n";
    assert_eq!(out, want);
}

#[test]
fn blob_sorts_files_and_appends_missing_newline() {
    let files = vec![
        CorpusEntry::new("b.rs", "fn b() {}\n"),
        CorpusEntry::new("a.rs", "fn a() {}"),
    ];
    let sep = "========================================\n";
    let want = format!(
        "Displaying contents of .rs/.md/.sh/.toml files:\n\
         {sep}a.rs\n{sep}fn a() {{}}\n{sep}b.rs\n{sep}fn b() {{}}\n"
    );
    assert_eq!(collect_all_rs(&files), want);
}

#[test]
fn default_file_action_labels() {
    assert_eq!(
        default_action_cells(true, false),
        ("exists".to_string(), "no changes".to_string())
    );
    assert_eq!(
        default_action_cells(false, true),
        ("created".to_string(), "default template written".to_string())
    );
    assert_eq!(
        default_action_cells(false, false),
        ("error".to_string(), "".to_string())
    );
}

#[test]
fn status_labels() {
    assert_eq!(Status::Found.label(), "Found");
    assert_eq!(Status::NotFound.label(), "Not found");
    assert_eq!(Status::Skipped.label(), "Skipped");
    assert_eq!(Status::NotApplicable.label(), "N/A");
}

#[test]
fn all_succeeded_is_a_conjunction() {
    assert!(all_succeeded(&vec![]));
    assert!(all_succeeded(&vec![true, true]));
    assert!(!all_succeeded(&vec![true, false, true]));
}
