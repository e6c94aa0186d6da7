//! The scan corpus: one entry per eligible text file, plus the path
//! predicates that decide eligibility (extension allow-list, skip-list
//! directories), leak-prone file names, and the documentation/example/test
//! scoping used by the PII sub-scan.

use vstd::prelude::*;

use crate::text::{
    after_last, after_last_char, ascii_lower, chars_eq_str, chars_of, contains_chars, ends_with_chars,
    has_sub, lower_chars, starts_with_chars,
};

verus! {

/// One file of the corpus: its path as encountered and its decoded text.
pub struct CorpusEntry {
    pub path: Vec<char>,
    pub text: Vec<char>,
}

impl View for CorpusEntry {
    type V = (Seq<char>, Seq<char>);

    open spec fn view(&self) -> (Seq<char>, Seq<char>) {
        (self.path@, self.text@)
    }
}

impl CorpusEntry {
    /// An entry holding the given path and text.
    pub fn new(path: &str, text: &str) -> (r: CorpusEntry)
        ensures
            r.path@ == path@,
            r.text@ == text@,
    {
        CorpusEntry { path: chars_of(path), text: chars_of(text) }
    }
}

/// The final path component: everything after the last `'/'`.
pub open spec fn file_name(p: Seq<char>) -> Seq<char> {
    after_last(p, '/')
}

/// Whether the extension is on the allow-list of text-file extensions.
pub open spec fn allowed_ext(e: Seq<char>) -> bool {
    e == "rs"@ || e == "md"@ || e == "sh"@ || e == "toml"@
}

/// Whether the file name has an extension: a `'.'` at some position past
/// the first character, so a leading-dot name such as `.env` has none.
pub open spec fn spec_has_ext(name: Seq<char>) -> bool {
    exists|k: int| 1 <= k < name.len() && name[k] == '.'
}

/// Whether the path names a file whose extension is on the allow-list.
pub open spec fn spec_is_allowed(p: Seq<char>) -> bool {
    let name = file_name(p);
    spec_has_ext(name) && allowed_ext(after_last(name, '.'))
}

/// Whether the path's file name carries an allow-listed extension
/// (`rs`, `md`, `sh`, or `toml`).
pub fn is_allowed_file(path: &str) -> (r: bool)
    ensures
        r == spec_is_allowed(path@),
{
    let cs = chars_of(path);
    is_allowed_path_chars(&cs)
}

/// Decides `spec_is_allowed` on a path given as characters.
pub fn is_allowed_path_chars(cs: &Vec<char>) -> (r: bool)
    ensures
        r == spec_is_allowed(cs@),
{
    let name = after_last_char(cs, '/');
    let mut k: usize = 1;
    let mut found_dot = false;
    while k < name.len()
        invariant
            found_dot ==> spec_has_ext(name@),
            !found_dot ==> k >= 1 || name@.len() == 0,
            !found_dot ==> forall|j: int| 1 <= j < k ==> name@[j] != '.',
        decreases name.len() - k,
    {
        if name[k] == '.' {
            found_dot = true;
            assert(spec_has_ext(name@));
            k = name.len();
        } else {
            k = k + 1;
        }
    }
    if !found_dot {
        assert(!spec_has_ext(name@));
        return false;
    }
    let ext = after_last_char(&name, '.');
    chars_eq_str(&ext, "rs") || chars_eq_str(&ext, "md") || chars_eq_str(&ext, "sh")
        || chars_eq_str(&ext, "toml")
}

/// Whether a directory of this name is pruned from every walk.
pub open spec fn spec_should_skip(p: Seq<char>) -> bool {
    let name = file_name(p);
    name == ".git"@ || name == "target"@ || name == "node_modules"@
}

/// Whether the path names a version-control, build-output, or
/// dependency-cache directory, none of which are ever entered.
pub fn should_skip_dir(path: &str) -> (r: bool)
    ensures
        r == spec_should_skip(path@),
{
    let cs = chars_of(path);
    let name = after_last_char(&cs, '/');
    chars_eq_str(&name, ".git") || chars_eq_str(&name, "target") || chars_eq_str(
        &name,
        "node_modules",
    )
}

/// Whether the file is within the corpus size cap.
pub fn within_size_cap(size: u64) -> (r: bool)
    ensures
        r == (size <= 1000000),
{
    size <= 1000000
}

/// Whether the path names a leak-prone file: dotenv files, `.envrc`,
/// kubeconfigs, SSH private-key file names, certificate/key extensions,
/// package-manager and credential-cache dotfiles, or `.aws`.
pub open spec fn spec_is_leak(p: Seq<char>) -> bool {
    let name = file_name(p);
    ".env"@.is_prefix_of(name) || name == ".envrc"@ || name == "kubeconfig"@
        || "id_rsa"@.is_prefix_of(name) || "id_ed25519"@.is_prefix_of(name)
        || ".pem"@.is_suffix_of(name) || ".p12"@.is_suffix_of(name) || ".crt"@.is_suffix_of(name)
        || ".key"@.is_suffix_of(name) || ".kube/config"@.is_suffix_of(p) || name == ".npmrc"@
        || name == ".pypirc"@ || name == ".netrc"@ || name == ".git-credentials"@ || name
        == ".aws"@
}

/// Decides `spec_is_leak` for the given path.
pub fn is_leak_file(path: &Vec<char>) -> (r: bool)
    ensures
        r == spec_is_leak(path@),
{
    let name = after_last_char(path, '/');
    let p_env = chars_of(".env");
    let p_rsa = chars_of("id_rsa");
    let p_ed = chars_of("id_ed25519");
    let s_pem = chars_of(".pem");
    let s_p12 = chars_of(".p12");
    let s_crt = chars_of(".crt");
    let s_key = chars_of(".key");
    let s_kube = chars_of(".kube/config");
    starts_with_chars(&name, &p_env) || chars_eq_str(&name, ".envrc") || chars_eq_str(
        &name,
        "kubeconfig",
    ) || starts_with_chars(&name, &p_rsa) || starts_with_chars(&name, &p_ed) || ends_with_chars(
        &name,
        &s_pem,
    ) || ends_with_chars(&name, &s_p12) || ends_with_chars(&name, &s_crt) || ends_with_chars(
        &name,
        &s_key,
    ) || ends_with_chars(path, &s_kube) || chars_eq_str(&name, ".npmrc") || chars_eq_str(
        &name,
        ".pypirc",
    ) || chars_eq_str(&name, ".netrc") || chars_eq_str(&name, ".git-credentials") || chars_eq_str(
        &name,
        ".aws",
    )
}

/// Whether the path, lowercased, lies under a `docs/`, `examples/`, or
/// `tests/` directory component. Only such files are scanned for PII terms.
pub open spec fn spec_in_scoped_dir(p: Seq<char>) -> bool {
    let lower = ascii_lower(p);
    "docs/"@.is_prefix_of(lower) || has_sub(lower, "/docs/"@) || "examples/"@.is_prefix_of(lower)
        || has_sub(lower, "/examples/"@) || "tests/"@.is_prefix_of(lower) || has_sub(
        lower,
        "/tests/"@,
    )
}

/// Decides `spec_in_scoped_dir` for the given path.
pub fn in_scoped_dir(path: &Vec<char>) -> (r: bool)
    ensures
        r == spec_in_scoped_dir(path@),
{
    let lower = lower_chars(path);
    let docs = chars_of("docs/");
    let sdocs = chars_of("/docs/");
    let ex = chars_of("examples/");
    let sex = chars_of("/examples/");
    let tests = chars_of("tests/");
    let stests = chars_of("/tests/");
    starts_with_chars(&lower, &docs) || contains_chars(&lower, &sdocs) || starts_with_chars(
        &lower,
        &ex,
    ) || contains_chars(&lower, &sex) || starts_with_chars(&lower, &tests) || contains_chars(
        &lower,
        &stests,
    )
}

} // verus!
