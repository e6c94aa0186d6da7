//! Rendering a directory tree: the walker hands over the visited entries in
//! traversal order, each with its depth; entries deeper than the requested
//! depth are dropped, directories are labelled `[DIR]`, and files appear
//! only when their extension is on the allow-list.

use vstd::prelude::*;

use crate::corpus::{is_allowed_path_chars, spec_is_allowed};
use crate::fmt::{dec_rep, push_dec};
use crate::text::{append_chars, append_str_chars, string_of};

verus! {

/// One visited entry of the walk: its path as encountered, its depth below
/// the root, and whether it is a directory.
pub struct TreeEntry {
    pub path: Vec<char>,
    pub level: usize,
    pub is_dir: bool,
}

/// The models of the visited entries.
pub open spec fn tree_views(es: Seq<TreeEntry>) -> Seq<(Seq<char>, int, bool)> {
    es.map_values(|e: TreeEntry| (e.path@, e.level as int, e.is_dir))
}

/// `n` spaces.
pub open spec fn spaces(n: nat) -> Seq<char> {
    Seq::new(n, |i: int| ' ')
}

/// The line one entry contributes: nothing beyond the depth cap, a `[DIR]`
/// line for a directory, a `[FILE]` line for an allow-listed file, and
/// nothing for any other file.
pub open spec fn tree_line(p: Seq<char>, level: int, is_dir: bool, max_depth: int) -> Seq<char> {
    if level > max_depth {
        Seq::empty()
    } else if is_dir {
        spaces((2 * level) as nat) + "[DIR]  "@ + p + "\n"@
    } else if spec_is_allowed(p) {
        spaces((2 * level) as nat) + "[FILE] "@ + p + "\n"@
    } else {
        Seq::empty()
    }
}

/// The concatenated lines of all entries, in traversal order.
pub open spec fn tree_body(es: Seq<(Seq<char>, int, bool)>, max_depth: int) -> Seq<char>
    decreases es.len(),
{
    if es.len() == 0 {
        Seq::empty()
    } else {
        tree_body(es.drop_last(), max_depth) + tree_line(
            es.last().0,
            es.last().1,
            es.last().2,
            max_depth,
        )
    }
}

/// The heading of the tree listing.
pub open spec fn tree_header(max_depth: nat) -> Seq<char> {
    "Directory structure (allowed files only, up to "@ + dec_rep(max_depth) + " levels):\n"@
}

/// Appends `2 * level` spaces.
fn push_indent(out: &mut Vec<char>, level: usize)
    ensures
        final(out)@ == old(out)@ + spaces((2 * level) as nat),
{
    let mut k: usize = 0;
    while k < level
        invariant
            k <= level,
            out@ == old(out)@ + spaces((2 * k) as nat),
        decreases level - k,
    {
        out.push(' ');
        out.push(' ');
        proof {
            assert(old(out)@ + spaces((2 * (k + 1)) as nat) =~= (old(out)@ + spaces(
                (2 * k) as nat,
            )).push(' ').push(' '));
        }
        k = k + 1;
    }
}

/// Builds the directory tree text from the visited entries, showing only
/// allow-listed files and entries at depth `max_depth` or less.
pub fn collect_tree(entries: &Vec<TreeEntry>, max_depth: usize) -> (r: String)
    ensures
        r@ == tree_header(max_depth as nat) + tree_body(tree_views(entries@), max_depth as int),
{
    let mut out: Vec<char> = Vec::new();
    append_str_chars(&mut out, "Directory structure (allowed files only, up to ");
    push_dec(&mut out, max_depth);
    append_str_chars(&mut out, " levels):\n");
    proof {
        assert(out@ =~= tree_header(max_depth as nat));
    }
    let mut i: usize = 0;
    while i < entries.len()
        invariant
            i <= entries@.len(),
            out@ == tree_header(max_depth as nat) + tree_body(
                tree_views(entries@).take(i as int),
                max_depth as int,
            ),
        decreases entries@.len() - i,
    {
        let e = &entries[i];
        let ghost prev = out@;
        if e.level <= max_depth {
            if e.is_dir {
                push_indent(&mut out, e.level);
                append_str_chars(&mut out, "[DIR]  ");
                append_chars(&mut out, &e.path);
                append_str_chars(&mut out, "\n");
                proof {
                    assert(out@ =~= prev + tree_line(
                        e.path@,
                        e.level as int,
                        e.is_dir,
                        max_depth as int,
                    ));
                }
            } else {
                let allowed = is_allowed_path_chars(&e.path);
                if allowed {
                    push_indent(&mut out, e.level);
                    append_str_chars(&mut out, "[FILE] ");
                    append_chars(&mut out, &e.path);
                    append_str_chars(&mut out, "\n");
                    proof {
                        assert(out@ =~= prev + tree_line(
                            e.path@,
                            e.level as int,
                            e.is_dir,
                            max_depth as int,
                        ));
                    }
                }
            }
        }
        proof {
            let tv = tree_views(entries@);
            assert(tv.take(i + 1 as int).drop_last() =~= tv.take(i as int));
            assert(tv.take(i + 1 as int).last() == tv[i as int]);
            assert(out@ =~= tree_header(max_depth as nat) + tree_body(
                tv.take(i + 1 as int),
                max_depth as int,
            ));
        }
        i = i + 1;
    }
    assert(tree_views(entries@).take(entries@.len() as int) =~= tree_views(entries@));
    string_of(&out)
}

} // verus!
