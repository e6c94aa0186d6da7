//! The extra scan: an independent, regex-driven pass over the same corpus.
//! Five fixed pattern families flag secret-like lines; every filesystem
//! entry is tested against a leak-prone-file name list; PII terms are
//! matched only under documentation, example, and test directories. All
//! three sub-scans merge into one finding.

use vstd::prelude::*;

use crate::corpus::{in_scoped_dir, is_leak_file, spec_in_scoped_dir, spec_is_leak, CorpusEntry};
use crate::fmt::{dec_rep, push_dec, views};
use crate::gather::clone_chars;
use crate::lines::{lemma_lines_bound, spec_lines, split_lines};
use crate::matcher::{
    corpus_views, lemma_total_chars_mono, lemma_total_chars_nonneg, loc_string, total_chars,
};
use crate::text::{chars_eq, string_of};

verus! {

#[verifier::external_type_specification]
#[verifier::external_body]
pub struct ExRegex(regex::Regex);

/// The pattern the regex was compiled from.
pub uninterp spec fn re_pattern(re: regex::Regex) -> Seq<char>;

/// Whether the regex compiled from `pattern` matches anywhere in `text`.
pub uninterp spec fn regex_matches(pattern: Seq<char>, text: Seq<char>) -> bool;

/// Whether the pattern compiles: Regex::new is deterministic, so its
/// success is a function of the pattern alone.
pub uninterp spec fn re_buildable(pattern: Seq<char>) -> bool;

/// Relies on regex::Regex::new: on success the returned regex was compiled
/// from exactly the given pattern.
#[verifier::external_body]
fn re_build(pattern: &str) -> (r: Option<regex::Regex>)
    ensures
        (r is Some) == re_buildable(pattern@),
        r matches Some(re) ==> re_pattern(re) == pattern@,
{
    match regex::Regex::new(pattern) {
        Ok(re) => Some(re),
        Err(_) => None,
    }
}

/// Relies on regex::Regex::is_match: whether the regex matches anywhere in
/// the haystack; the result depends on the pattern and the haystack alone.
#[verifier::external_body]
fn re_is_match(re: &regex::Regex, line: &Vec<char>) -> (r: bool)
    ensures
        r == regex_matches(re_pattern(*re), line@),
{
    let hay: String = line.iter().collect();
    re.is_match(&hay)
}

/// The five secret patterns and the PII pattern, compiled once per scan.
pub struct ExtraPatterns {
    pub words: regex::Regex,
    pub aws: regex::Regex,
    pub gh: regex::Regex,
    pub slack: regex::Regex,
    pub pem: regex::Regex,
    pub pii: regex::Regex,
}

/// Whether all six fixed patterns of the extra scan compile.
pub open spec fn extra_patterns_buildable() -> bool {
    &&& re_buildable(r"(?i)\b(api|secret|token|key|password|passwd|bearer|authorization)\b"@)
    &&& re_buildable(r"AKIA[0-9A-Z]{16}"@)
    &&& re_buildable(r"ghp_[A-Za-z0-9]{36,}"@)
    &&& re_buildable(r"xox[baprs]-[A-Za-z0-9-]{10,}"@)
    &&& re_buildable(r"BEGIN (RSA|DSA|EC|OPENSSH) (PRIVATE|PUBLIC) KEY"@)
    &&& re_buildable(r"(?i)(email|@example|phone|address|SIN|SSN|passport|license)"@)
}

impl ExtraPatterns {
    /// Each field was compiled from its fixed pattern.
    pub open spec fn wf(&self) -> bool {
        &&& re_pattern(self.words) == r"(?i)\b(api|secret|token|key|password|passwd|bearer|authorization)\b"@
        &&& re_pattern(self.aws) == r"AKIA[0-9A-Z]{16}"@
        &&& re_pattern(self.gh) == r"ghp_[A-Za-z0-9]{36,}"@
        &&& re_pattern(self.slack) == r"xox[baprs]-[A-Za-z0-9-]{10,}"@
        &&& re_pattern(self.pem) == r"BEGIN (RSA|DSA|EC|OPENSSH) (PRIVATE|PUBLIC) KEY"@
        &&& re_pattern(self.pii) == r"(?i)(email|@example|phone|address|SIN|SSN|passport|license)"@
    }

    /// Compiles the six fixed patterns; `None` exactly when one fails to
    /// build, which is fatal to the extra scan.
    pub fn build() -> (r: Option<ExtraPatterns>)
        ensures
            (r is Some) == extra_patterns_buildable(),
            r matches Some(p) ==> p.wf(),
    {
        let words = match re_build(
            r"(?i)\b(api|secret|token|key|password|passwd|bearer|authorization)\b",
        ) {
            Some(re) => re,
            None => {
                return None;
            },
        };
        let aws = match re_build(r"AKIA[0-9A-Z]{16}") {
            Some(re) => re,
            None => {
                return None;
            },
        };
        let gh = match re_build(r"ghp_[A-Za-z0-9]{36,}") {
            Some(re) => re,
            None => {
                return None;
            },
        };
        let slack = match re_build(r"xox[baprs]-[A-Za-z0-9-]{10,}") {
            Some(re) => re,
            None => {
                return None;
            },
        };
        let pem = match re_build(r"BEGIN (RSA|DSA|EC|OPENSSH) (PRIVATE|PUBLIC) KEY") {
            Some(re) => re,
            None => {
                return None;
            },
        };
        let pii = match re_build(r"(?i)(email|@example|phone|address|SIN|SSN|passport|license)") {
            Some(re) => re,
            None => {
                return None;
            },
        };
        Some(ExtraPatterns { words, aws, gh, slack, pem, pii })
    }
}

/// Whether any of the five secret pattern families matches the line.
pub open spec fn secret_line(l: Seq<char>) -> bool {
    ||| regex_matches(
        r"(?i)\b(api|secret|token|key|password|passwd|bearer|authorization)\b"@,
        l,
    )
    ||| regex_matches(r"AKIA[0-9A-Z]{16}"@, l)
    ||| regex_matches(r"ghp_[A-Za-z0-9]{36,}"@, l)
    ||| regex_matches(r"xox[baprs]-[A-Za-z0-9-]{10,}"@, l)
    ||| regex_matches(r"BEGIN (RSA|DSA|EC|OPENSSH) (PRIVATE|PUBLIC) KEY"@, l)
}

/// Whether the PII pattern matches the line.
pub open spec fn pii_line(l: Seq<char>) -> bool {
    regex_matches(r"(?i)(email|@example|phone|address|SIN|SSN|passport|license)"@, l)
}

/// The 1-based numbers of the lines that the secret patterns flag.
pub open spec fn secret_line_nums(lines: Seq<Seq<char>>) -> Seq<usize>
    decreases lines.len(),
{
    if lines.len() == 0 {
        Seq::empty()
    } else {
        secret_line_nums(lines.drop_last()) + if secret_line(lines.last()) {
            seq![lines.len() as usize]
        } else {
            Seq::empty()
        }
    }
}

/// The 1-based numbers of the lines that the PII pattern flags.
pub open spec fn pii_line_nums(lines: Seq<Seq<char>>) -> Seq<usize>
    decreases lines.len(),
{
    if lines.len() == 0 {
        Seq::empty()
    } else {
        pii_line_nums(lines.drop_last()) + if pii_line(lines.last()) {
            seq![lines.len() as usize]
        } else {
            Seq::empty()
        }
    }
}

/// The word-scan locations: one `"path:line,line,..."` per file with a
/// flagged line, in corpus order.
pub open spec fn word_locs(entries: Seq<(Seq<char>, Seq<char>)>) -> Seq<Seq<char>>
    decreases entries.len(),
{
    if entries.len() == 0 {
        Seq::empty()
    } else {
        let rest = word_locs(entries.drop_last());
        let lns = secret_line_nums(spec_lines(entries.last().1));
        if lns.len() > 0 {
            rest.push(loc_string(entries.last().0, lns))
        } else {
            rest
        }
    }
}

/// The set of file paths that the word scan flags.
pub open spec fn word_files(entries: Seq<(Seq<char>, Seq<char>)>) -> Set<Seq<char>>
    decreases entries.len(),
{
    if entries.len() == 0 {
        Set::empty()
    } else {
        let rest = word_files(entries.drop_last());
        if secret_line_nums(spec_lines(entries.last().1)).len() > 0 {
            rest.insert(entries.last().0)
        } else {
            rest
        }
    }
}

/// How many lines the word scan flags over the corpus.
pub open spec fn word_hits(entries: Seq<(Seq<char>, Seq<char>)>) -> int
    decreases entries.len(),
{
    if entries.len() == 0 {
        0
    } else {
        word_hits(entries.drop_last()) + secret_line_nums(spec_lines(entries.last().1)).len()
    }
}

/// The leak-prone entries of the filesystem walk, as file-level locations
/// (no line numbers), in walk order.
pub open spec fn leak_locs(paths: Seq<Seq<char>>) -> Seq<Seq<char>>
    decreases paths.len(),
{
    if paths.len() == 0 {
        Seq::empty()
    } else {
        let rest = leak_locs(paths.drop_last());
        if spec_is_leak(paths.last()) {
            rest.push(paths.last())
        } else {
            rest
        }
    }
}

/// The set of leak-prone paths.
pub open spec fn leak_files(paths: Seq<Seq<char>>) -> Set<Seq<char>>
    decreases paths.len(),
{
    if paths.len() == 0 {
        Set::empty()
    } else {
        let rest = leak_files(paths.drop_last());
        if spec_is_leak(paths.last()) {
            rest.insert(paths.last())
        } else {
            rest
        }
    }
}

/// The line numbers the PII scan records for one file: none at all when
/// the path is not under a docs, examples, or tests directory.
pub open spec fn pii_file_nums(e: (Seq<char>, Seq<char>)) -> Seq<usize> {
    if spec_in_scoped_dir(e.0) {
        pii_line_nums(spec_lines(e.1))
    } else {
        Seq::empty()
    }
}

/// The PII-scan locations, in corpus order.
pub open spec fn pii_locs(entries: Seq<(Seq<char>, Seq<char>)>) -> Seq<Seq<char>>
    decreases entries.len(),
{
    if entries.len() == 0 {
        Seq::empty()
    } else {
        let rest = pii_locs(entries.drop_last());
        let lns = pii_file_nums(entries.last());
        if lns.len() > 0 {
            rest.push(loc_string(entries.last().0, lns))
        } else {
            rest
        }
    }
}

/// The set of file paths that the PII scan flags.
pub open spec fn pii_files(entries: Seq<(Seq<char>, Seq<char>)>) -> Set<Seq<char>>
    decreases entries.len(),
{
    if entries.len() == 0 {
        Set::empty()
    } else {
        let rest = pii_files(entries.drop_last());
        if pii_file_nums(entries.last()).len() > 0 {
            rest.insert(entries.last().0)
        } else {
            rest
        }
    }
}

/// How many lines the PII scan flags over the corpus.
pub open spec fn pii_hits(entries: Seq<(Seq<char>, Seq<char>)>) -> int
    decreases entries.len(),
{
    if entries.len() == 0 {
        0
    } else {
        pii_hits(entries.drop_last()) + pii_file_nums(entries.last()).len()
    }
}

/// The distinct files any sub-scan flags.
pub open spec fn extra_files(
    entries: Seq<(Seq<char>, Seq<char>)>,
    paths: Seq<Seq<char>>,
) -> Set<Seq<char>> {
    word_files(entries).union(leak_files(paths)).union(pii_files(entries))
}

/// The total findings of the extra scan.
pub open spec fn extra_hits(entries: Seq<(Seq<char>, Seq<char>)>, paths: Seq<Seq<char>>) -> int {
    word_hits(entries) + leak_locs(paths).len() + pii_hits(entries)
}

/// All location strings of the extra scan, in discovery order: the word
/// scan first, then the leak files, then the PII scan.
pub open spec fn extra_locs(
    entries: Seq<(Seq<char>, Seq<char>)>,
    paths: Seq<Seq<char>>,
) -> Seq<Seq<char>> {
    word_locs(entries) + leak_locs(paths) + pii_locs(entries)
}

/// The merged outcome of the extra scan.
pub struct ExtraFinding {
    /// Whether any sub-scan flagged anything.
    pub found: bool,
    /// How many distinct files were flagged.
    pub files: usize,
    /// How many findings there were in all.
    pub hits: usize,
    /// All location strings, in discovery order.
    pub locations: Vec<Vec<char>>,
}

/// The details column of the extra-scans row.
pub open spec fn extra_details(found: bool, files: nat, hits: nat) -> Seq<char> {
    if found {
        dec_rep(files) + " files, "@ + dec_rep(hits) + " findings"@
    } else {
        "not found"@
    }
}

impl ExtraFinding {
    /// Renders the details column: `"{N} files, {M} findings"` when
    /// anything was found, `"not found"` otherwise.
    pub fn details(&self) -> (r: String)
        ensures
            r@ == extra_details(self.found, self.files as nat, self.hits as nat),
    {
        if self.found {
            let mut out: Vec<char> = Vec::new();
            push_dec(&mut out, self.files);
            crate::text::append_str_chars(&mut out, " files, ");
            push_dec(&mut out, self.hits);
            crate::text::append_str_chars(&mut out, " findings");
            string_of(&out)
        } else {
            let mut out: Vec<char> = Vec::new();
            crate::text::append_str_chars(&mut out, "not found");
            assert(out@ =~= "not found"@);
            string_of(&out)
        }
    }
}

proof fn lemma_secret_nums_le(lines: Seq<Seq<char>>)
    ensures
        secret_line_nums(lines).len() <= lines.len(),
    decreases lines.len(),
{
    if lines.len() > 0 {
        lemma_secret_nums_le(lines.drop_last());
    }
}

proof fn lemma_pii_nums_le(lines: Seq<Seq<char>>)
    ensures
        pii_line_nums(lines).len() <= lines.len(),
    decreases lines.len(),
{
    if lines.len() > 0 {
        lemma_pii_nums_le(lines.drop_last());
    }
}

proof fn lemma_word_hits_bounds(entries: Seq<(Seq<char>, Seq<char>)>)
    ensures
        0 <= word_hits(entries) <= total_chars(entries),
    decreases entries.len(),
{
    if entries.len() > 0 {
        lemma_word_hits_bounds(entries.drop_last());
        lemma_secret_nums_le(spec_lines(entries.last().1));
        lemma_lines_bound(entries.last().1);
    }
}

proof fn lemma_pii_hits_bounds(entries: Seq<(Seq<char>, Seq<char>)>)
    ensures
        0 <= pii_hits(entries) <= total_chars(entries),
    decreases entries.len(),
{
    if entries.len() > 0 {
        lemma_pii_hits_bounds(entries.drop_last());
        lemma_pii_nums_le(spec_lines(entries.last().1));
        lemma_lines_bound(entries.last().1);
    }
}

proof fn lemma_leak_locs_le(paths: Seq<Seq<char>>)
    ensures
        leak_locs(paths).len() <= paths.len(),
    decreases paths.len(),
{
    if paths.len() > 0 {
        lemma_leak_locs_le(paths.drop_last());
    }
}

/// Whether some element of `seen` holds exactly these characters.
fn contains_path(seen: &Vec<Vec<char>>, v: &Vec<char>) -> (r: bool)
    ensures
        r == views(seen@).contains(v@),
{
    let mut i: usize = 0;
    while i < seen.len()
        invariant
            i <= seen@.len(),
            forall|j: int| 0 <= j < i ==> views(seen@)[j] != v@,
        decreases seen@.len() - i,
    {
        if chars_eq(&seen[i], v) {
            assert(views(seen@)[i as int] == v@);
            return true;
        }
        i = i + 1;
    }
    assert(!views(seen@).contains(v@));
    false
}

/// Notes the path as flagged: the set of seen paths gains it, without
/// duplicates.
fn note_file(seen: &mut Vec<Vec<char>>, path: &Vec<char>)
    requires
        views(old(seen)@).no_duplicates(),
    ensures
        views(final(seen)@).no_duplicates(),
        views(final(seen)@).to_set() == views(old(seen)@).to_set().insert(path@),
{
    if contains_path(seen, path) {
        assert(views(seen@).to_set() =~= views(seen@).to_set().insert(path@));
        return ;
    }
    let ghost prev = views(seen@);
    seen.push(clone_chars(path));
    proof {
        assert(views(seen@) =~= prev.push(path@));
        prev.lemma_push_to_set_commute(path@);
        assert(views(seen@).no_duplicates()) by {
            assert(forall|j: int| 0 <= j < prev.len() ==> prev[j] != path@);
        }
    }
}

/// The flagged line numbers of one file's lines under the secret patterns.
fn secret_nums_of(p: &ExtraPatterns, lines: &Vec<Vec<char>>) -> (nums: Vec<usize>)
    requires
        p.wf(),
    ensures
        nums@ == secret_line_nums(views(lines@)),
{
    let mut nums: Vec<usize> = Vec::new();
    let mut ln: usize = 0;
    while ln < lines.len()
        invariant
            p.wf(),
            ln <= lines@.len(),
            nums@ == secret_line_nums(views(lines@).take(ln as int)),
        decreases lines@.len() - ln,
    {
        let line = &lines[ln];
        let hit = re_is_match(&p.words, line) || re_is_match(&p.aws, line) || re_is_match(
            &p.gh,
            line,
        ) || re_is_match(&p.slack, line) || re_is_match(&p.pem, line);
        if hit {
            nums.push(ln + 1);
        }
        proof {
            let t1 = views(lines@).take(ln + 1 as int);
            assert(t1.drop_last() =~= views(lines@).take(ln as int));
            assert(t1.last() == lines@[ln as int]@);
            if hit {
                assert(nums@ =~= secret_line_nums(views(lines@).take(ln as int)) + seq![
                    (ln + 1) as usize,
                ]);
            } else {
                assert(nums@ =~= secret_line_nums(views(lines@).take(ln as int))
                    + Seq::<usize>::empty());
            }
        }
        ln = ln + 1;
    }
    assert(views(lines@).take(lines@.len() as int) =~= views(lines@));
    nums
}

/// The flagged line numbers of one file's lines under the PII pattern.
fn pii_nums_of(p: &ExtraPatterns, lines: &Vec<Vec<char>>) -> (nums: Vec<usize>)
    requires
        p.wf(),
    ensures
        nums@ == pii_line_nums(views(lines@)),
{
    let mut nums: Vec<usize> = Vec::new();
    let mut ln: usize = 0;
    while ln < lines.len()
        invariant
            p.wf(),
            ln <= lines@.len(),
            nums@ == pii_line_nums(views(lines@).take(ln as int)),
        decreases lines@.len() - ln,
    {
        let line = &lines[ln];
        let hit = re_is_match(&p.pii, line);
        if hit {
            nums.push(ln + 1);
        }
        proof {
            let t1 = views(lines@).take(ln + 1 as int);
            assert(t1.drop_last() =~= views(lines@).take(ln as int));
            assert(t1.last() == lines@[ln as int]@);
            if hit {
                assert(nums@ =~= pii_line_nums(views(lines@).take(ln as int)) + seq![
                    (ln + 1) as usize,
                ]);
            } else {
                assert(nums@ =~= pii_line_nums(views(lines@).take(ln as int))
                    + Seq::<usize>::empty());
            }
        }
        ln = ln + 1;
    }
    assert(views(lines@).take(lines@.len() as int) =~= views(lines@));
    nums
}

/// Builds one location string for a file and its recorded line numbers.
fn make_loc(path: &Vec<char>, nums: &Vec<usize>) -> (r: Vec<char>)
    ensures
        r@ == loc_string(path@, nums@),
{
    let mut r = clone_chars(path);
    r.push(':');
    crate::fmt::push_join_commas(&mut r, nums);
    assert(r@ =~= path@ + seq![':'] + crate::fmt::join_commas(nums@));
    r
}

/// Runs the three extra sub-scans over the corpus and the walked paths and
/// merges them into one finding. The corpus and path list must fit in
/// memory, so their combined size is required to fit in `usize`.
pub fn run_extra_scans(
    p: &ExtraPatterns,
    corpus: &Vec<CorpusEntry>,
    all_paths: &Vec<Vec<char>>,
) -> (r: ExtraFinding)
    requires
        p.wf(),
        2 * total_chars(corpus_views(corpus@)) + all_paths@.len() <= usize::MAX,
    ensures
        r.found == (extra_files(corpus_views(corpus@), views(all_paths@)).len() != 0),
        r.files == extra_files(corpus_views(corpus@), views(all_paths@)).len(),
        r.hits == extra_hits(corpus_views(corpus@), views(all_paths@)),
        views(r.locations@) == extra_locs(corpus_views(corpus@), views(all_paths@)),
{
    let ghost cv = corpus_views(corpus@);
    let ghost pv = views(all_paths@);
    let mut hits: usize = 0;
    let mut locs: Vec<Vec<char>> = Vec::new();
    let mut seen: Vec<Vec<char>> = Vec::new();
    proof {
        assert(views(seen@).to_set() =~= Set::<Seq<char>>::empty());
        assert(views(locs@) =~= Seq::<Seq<char>>::empty());
        lemma_total_chars_nonneg(cv);
    }

    // Word scan: secret patterns over every corpus file.
    let mut f: usize = 0;
    while f < corpus.len()
        invariant
            f <= corpus@.len(),
            p.wf(),
            cv == corpus_views(corpus@),
            cv.len() == corpus@.len(),
            2 * total_chars(cv) + pv.len() <= usize::MAX,
            total_chars(cv) >= 0,
            hits == word_hits(cv.take(f as int)),
            views(locs@) == word_locs(cv.take(f as int)),
            views(seen@).no_duplicates(),
            views(seen@).to_set() == word_files(cv.take(f as int)),
        decreases corpus@.len() - f,
    {
        proof {
            assert(cv[f as int] == corpus@[f as int]@);
        }
        let entry = &corpus[f];
        let lines = split_lines(&entry.text);
        let nums = secret_nums_of(p, &lines);
        proof {
            assert(cv.take(f + 1 as int).drop_last() =~= cv.take(f as int));
            assert(cv.take(f + 1 as int).last() == cv[f as int]);
            lemma_word_hits_bounds(cv.take(f as int));
            lemma_word_hits_bounds(cv.take(f + 1 as int));
            lemma_total_chars_mono(cv, f + 1 as int);
        }
        if nums.len() > 0 {
            hits = hits + nums.len();
            let ghost prev = views(locs@);
            locs.push(make_loc(&entry.path, &nums));
            note_file(&mut seen, &entry.path);
            proof {
                assert(views(locs@) =~= prev.push(loc_string(cv[f as int].0, nums@)));
            }
        }
        f = f + 1;
    }
    assert(cv.take(cv.len() as int) =~= cv);
    proof {
        lemma_word_hits_bounds(cv);
    }

    // Leak-prone file names over every walked path.
    let mut k: usize = 0;
    while k < all_paths.len()
        invariant
            k <= all_paths@.len(),
            cv == corpus_views(corpus@),
            pv == views(all_paths@),
            pv.len() == all_paths@.len(),
            2 * total_chars(cv) + pv.len() <= usize::MAX,
            total_chars(cv) >= 0,
            0 <= word_hits(cv) <= total_chars(cv),
            hits == word_hits(cv) + leak_locs(pv.take(k as int)).len(),
            views(locs@) == word_locs(cv) + leak_locs(pv.take(k as int)),
            views(seen@).no_duplicates(),
            views(seen@).to_set() == word_files(cv).union(leak_files(pv.take(k as int))),
        decreases all_paths@.len() - k,
    {
        let path = &all_paths[k];
        let leak = is_leak_file(path);
        proof {
            assert(pv.take(k + 1 as int).drop_last() =~= pv.take(k as int));
            assert(pv.take(k + 1 as int).last() == pv[k as int]);
            lemma_leak_locs_le(pv.take(k as int));
        }
        if leak {
            let ghost prev = views(locs@);
            locs.push(clone_chars(path));
            note_file(&mut seen, path);
            hits = hits + 1;
            proof {
                assert(views(locs@) =~= prev.push(pv[k as int]));
                assert(views(locs@) =~= word_locs(cv) + leak_locs(pv.take(k + 1 as int)));
                assert(word_files(cv).union(leak_files(pv.take(k as int))).insert(pv[k as int])
                    =~= word_files(cv).union(leak_files(pv.take(k + 1 as int))));
            }
        }
        k = k + 1;
    }
    assert(pv.take(pv.len() as int) =~= pv);
    proof {
        lemma_leak_locs_le(pv);
    }

    // PII terms, only under docs, examples, and tests directories.
    let mut f2: usize = 0;
    while f2 < corpus.len()
        invariant
            f2 <= corpus@.len(),
            p.wf(),
            cv == corpus_views(corpus@),
            pv == views(all_paths@),
            cv.len() == corpus@.len(),
            2 * total_chars(cv) + pv.len() <= usize::MAX,
            total_chars(cv) >= 0,
            0 <= word_hits(cv) <= total_chars(cv),
            leak_locs(pv).len() <= pv.len(),
            hits == word_hits(cv) + leak_locs(pv).len() + pii_hits(cv.take(f2 as int)),
            views(locs@) == word_locs(cv) + leak_locs(pv) + pii_locs(cv.take(f2 as int)),
            views(seen@).no_duplicates(),
            views(seen@).to_set() == word_files(cv).union(leak_files(pv)).union(
                pii_files(cv.take(f2 as int)),
            ),
        decreases corpus@.len() - f2,
    {
        proof {
            assert(cv[f2 as int] == corpus@[f2 as int]@);
            assert(cv.take(f2 + 1 as int).drop_last() =~= cv.take(f2 as int));
            assert(cv.take(f2 + 1 as int).last() == cv[f2 as int]);
            lemma_pii_hits_bounds(cv.take(f2 as int));
            lemma_pii_hits_bounds(cv.take(f2 + 1 as int));
            lemma_total_chars_mono(cv, f2 + 1 as int);
        }
        let entry = &corpus[f2];
        let scoped = in_scoped_dir(&entry.path);
        if scoped {
            let lines = split_lines(&entry.text);
            let nums = pii_nums_of(p, &lines);
            if nums.len() > 0 {
                hits = hits + nums.len();
                let ghost prev = views(locs@);
                locs.push(make_loc(&entry.path, &nums));
                note_file(&mut seen, &entry.path);
                proof {
                    assert(views(locs@) =~= prev.push(loc_string(cv[f2 as int].0, nums@)));
                    assert(word_files(cv).union(leak_files(pv)).union(
                        pii_files(cv.take(f2 as int)),
                    ).insert(cv[f2 as int].0) =~= word_files(cv).union(leak_files(pv)).union(
                        pii_files(cv.take(f2 + 1 as int)),
                    ));
                }
            }
        }
        f2 = f2 + 1;
    }
    assert(cv.take(cv.len() as int) =~= cv);

    let files = seen.len();
    let found = files > 0;
    proof {
        views(seen@).unique_seq_to_set();
    }
    ExtraFinding { found, files, hits, locations: locs }
}

} // verus!
