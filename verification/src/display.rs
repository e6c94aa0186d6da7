//! Rendering the whole corpus as one text blob: a heading, then every file
//! in ascending path order, each under a separator banner, with a newline
//! appended to any file that does not end in one.

use vstd::prelude::*;

use crate::corpus::CorpusEntry;
use crate::gather::clone_chars;
use crate::matcher::corpus_views;
use crate::text::{append_chars, append_str_chars, chars_lt, string_of};

verus! {

/// `e` placed before the first entry whose path is strictly greater; after
/// every entry with an equal or smaller path, so equal paths keep their
/// first-come order.
pub open spec fn insert_by_path(
    s: Seq<(Seq<char>, Seq<char>)>,
    e: (Seq<char>, Seq<char>),
) -> Seq<(Seq<char>, Seq<char>)>
    decreases s.len(),
{
    if s.len() == 0 {
        seq![e]
    } else if chars_lt(e.0, s[0].0) {
        seq![e] + s
    } else {
        seq![s[0]] + insert_by_path(s.drop_first(), e)
    }
}

/// The entries in ascending path order, by insertion sort.
pub open spec fn sort_by_path(s: Seq<(Seq<char>, Seq<char>)>) -> Seq<(Seq<char>, Seq<char>)>
    decreases s.len(),
{
    if s.len() == 0 {
        Seq::empty()
    } else {
        insert_by_path(sort_by_path(s.drop_last()), s.last())
    }
}

/// The section one file contributes: a banner, the path, a banner, the
/// text, and a final newline where the text lacks one.
pub open spec fn file_section(path: Seq<char>, text: Seq<char>) -> Seq<char> {
    "========================================\n"@ + path + "\n"@
        + "========================================\n"@ + text + (if text.len() > 0 && text.last()
        == '\n' {
        Seq::<char>::empty()
    } else {
        "\n"@
    })
}

/// The concatenated sections of all entries, in the given order.
pub open spec fn blob_body(es: Seq<(Seq<char>, Seq<char>)>) -> Seq<char>
    decreases es.len(),
{
    if es.len() == 0 {
        Seq::empty()
    } else {
        blob_body(es.drop_last()) + file_section(es.last().0, es.last().1)
    }
}

/// The heading of the blob.
pub open spec fn blob_header() -> Seq<char> {
    "Displaying contents of .rs/.md/.sh/.toml files:\n"@
}

proof fn lemma_insert_by_path_at(s: Seq<(Seq<char>, Seq<char>)>, e: (Seq<char>, Seq<char>), p: int)
    requires
        0 <= p <= s.len(),
        forall|i: int| 0 <= i < p ==> !chars_lt(e.0, (#[trigger] s[i]).0),
        p < s.len() ==> chars_lt(e.0, s[p].0),
    ensures
        insert_by_path(s, e) == s.take(p) + seq![e] + s.skip(p),
    decreases p,
{
    if p == 0 {
        if s.len() == 0 {
            assert(insert_by_path(s, e) =~= s.take(0) + seq![e] + s.skip(0));
        } else {
            assert(insert_by_path(s, e) =~= s.take(0) + seq![e] + s.skip(0));
        }
    } else {
        let d = s.drop_first();
        assert(forall|i: int| 0 <= i < p - 1 ==> d[i] == s[i + 1]);
        lemma_insert_by_path_at(d, e, p - 1);
        assert(insert_by_path(s, e) =~= seq![s[0]] + (d.take(p - 1) + seq![e] + d.skip(p - 1)));
        assert(seq![s[0]] + (d.take(p - 1) + seq![e] + d.skip(p - 1)) =~= s.take(p) + seq![e]
            + s.skip(p));
    }
}

/// Inserts a copy of the entry at its ordered position.
fn insert_entry(sorted: &mut Vec<CorpusEntry>, entry: &CorpusEntry)
    ensures
        corpus_views(final(sorted)@) == insert_by_path(corpus_views(old(sorted)@), entry@),
{
    let ghost s = corpus_views(old(sorted)@);
    let mut p: usize = 0;
    let mut place_found = false;
    while p < sorted.len() && !place_found
        invariant
            sorted == old(sorted),
            s == corpus_views(sorted@),
            p <= sorted@.len(),
            forall|i: int| 0 <= i < p ==> !chars_lt(entry@.0, (#[trigger] s[i]).0),
            place_found ==> p < s.len() && chars_lt(entry@.0, s[p as int].0),
        decreases sorted@.len() - p + (if place_found {
            0int
        } else {
            1int
        }),
    {
        proof {
            assert(s[p as int] == sorted@[p as int]@);
        }
        if crate::text::chars_cmp_lt(&entry.path, &sorted[p].path) {
            place_found = true;
        } else {
            p = p + 1;
        }
    }
    proof {
        lemma_insert_by_path_at(s, entry@, p as int);
    }
    let copy = CorpusEntry { path: clone_chars(&entry.path), text: clone_chars(&entry.text) };
    assert(copy@ == entry@);
    sorted.insert(p, copy);
    proof {
        assert(corpus_views(sorted@) =~= s.take(p as int) + seq![entry@] + s.skip(p as int));
    }
}

/// One text blob holding every corpus file in ascending path order, each
/// under a separator banner.
pub fn collect_all_rs(files: &Vec<CorpusEntry>) -> (r: String)
    ensures
        r@ == blob_header() + blob_body(sort_by_path(corpus_views(files@))),
{
    let ghost cv = corpus_views(files@);
    let mut sorted: Vec<CorpusEntry> = Vec::new();
    proof {
        assert(corpus_views(sorted@) =~= Seq::<(Seq<char>, Seq<char>)>::empty());
    }
    let mut i: usize = 0;
    while i < files.len()
        invariant
            i <= files@.len(),
            cv == corpus_views(files@),
            corpus_views(sorted@) == sort_by_path(cv.take(i as int)),
        decreases files@.len() - i,
    {
        proof {
            assert(cv[i as int] == files@[i as int]@);
            assert(cv.take(i + 1 as int).drop_last() =~= cv.take(i as int));
            assert(cv.take(i + 1 as int).last() == cv[i as int]);
        }
        insert_entry(&mut sorted, &files[i]);
        i = i + 1;
    }
    assert(cv.take(cv.len() as int) =~= cv);
    let ghost sv = sort_by_path(cv);

    let mut out: Vec<char> = Vec::new();
    append_str_chars(&mut out, "Displaying contents of .rs/.md/.sh/.toml files:\n");
    assert(out@ =~= blob_header());
    let mut j: usize = 0;
    while j < sorted.len()
        invariant
            j <= sorted@.len(),
            sv == corpus_views(sorted@),
            out@ == blob_header() + blob_body(sv.take(j as int)),
        decreases sorted@.len() - j,
    {
        proof {
            assert(sv[j as int] == sorted@[j as int]@);
            assert(sv.take(j + 1 as int).drop_last() =~= sv.take(j as int));
            assert(sv.take(j + 1 as int).last() == sv[j as int]);
        }
        let e = &sorted[j];
        append_str_chars(&mut out, "========================================\n");
        append_chars(&mut out, &e.path);
        append_str_chars(&mut out, "\n");
        append_str_chars(&mut out, "========================================\n");
        append_chars(&mut out, &e.text);
        let needs_newline = e.text.len() == 0 || e.text[e.text.len() - 1] != '\n';
        if needs_newline {
            append_str_chars(&mut out, "\n");
        }
        proof {
            assert(out@ =~= blob_header() + blob_body(sv.take(j + 1 as int)));
        }
        j = j + 1;
    }
    assert(sv.take(sv.len() as int) =~= sv);
    string_of(&out)
}

} // verus!
