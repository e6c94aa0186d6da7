//! Splitting text into lines, with the same conventions as `str::lines`:
//! lines are separated by `'\n'`, a `'\r'` immediately before the `'\n'` is
//! dropped, and a final line without a trailing `'\n'` is kept.

use vstd::prelude::*;

use crate::fmt::views;

verus! {

/// The line with one trailing carriage return removed, if present.
pub open spec fn strip_cr(l: Seq<char>) -> Seq<char> {
    if l.len() > 0 && l.last() == '\r' {
        l.drop_last()
    } else {
        l
    }
}

/// Folds the text into its complete lines and the pending final segment.
pub open spec fn lines_fold(s: Seq<char>) -> (Seq<Seq<char>>, Seq<char>)
    decreases s.len(),
{
    if s.len() == 0 {
        (Seq::empty(), Seq::empty())
    } else {
        let r = lines_fold(s.drop_last());
        let c = s.last();
        if c == '\n' {
            (r.0.push(strip_cr(r.1)), Seq::empty())
        } else {
            (r.0, r.1.push(c))
        }
    }
}

/// The lines of the text, as `str::lines` yields them.
pub open spec fn spec_lines(s: Seq<char>) -> Seq<Seq<char>> {
    let r = lines_fold(s);
    if r.1.len() > 0 {
        r.0.push(r.1)
    } else {
        r.0
    }
}

/// The total character count of a sequence of lines.
pub open spec fn lens_sum(ls: Seq<Seq<char>>) -> int
    decreases ls.len(),
{
    if ls.len() == 0 {
        0
    } else {
        lens_sum(ls.drop_last()) + ls.last().len()
    }
}

proof fn lemma_lines_fold_bound(s: Seq<char>)
    ensures
        lens_sum(lines_fold(s).0) + lines_fold(s).0.len() + lines_fold(s).1.len() <= s.len(),
    decreases s.len(),
{
    if s.len() > 0 {
        lemma_lines_fold_bound(s.drop_last());
        let r = lines_fold(s.drop_last());
        if s.last() == '\n' {
            assert(lines_fold(s).0.drop_last() =~= r.0);
        }
    }
}

/// The lines of a text are no longer, in total, than the text itself, and
/// there are no more lines than characters.
pub proof fn lemma_lines_bound(s: Seq<char>)
    ensures
        lens_sum(spec_lines(s)) <= s.len(),
        spec_lines(s).len() <= s.len(),
{
    lemma_lines_fold_bound(s);
    let r = lines_fold(s);
    lemma_lens_sum_nonneg(r.0);
    if r.1.len() > 0 {
        assert(spec_lines(s).drop_last() =~= r.0);
    }
}

/// Every line is no longer than the text it came from.
pub proof fn lemma_line_len(s: Seq<char>, i: int)
    requires
        0 <= i < spec_lines(s).len(),
    ensures
        spec_lines(s)[i].len() <= s.len(),
{
    lemma_lines_bound(s);
    lemma_lens_sum_each(spec_lines(s), i);
}

proof fn lemma_lens_sum_each(ls: Seq<Seq<char>>, i: int)
    requires
        0 <= i < ls.len(),
        forall|j: int| 0 <= j < ls.len() ==> (#[trigger] ls[j]).len() >= 0,
    ensures
        ls[i].len() <= lens_sum(ls),
    decreases ls.len(),
{
    if i == ls.len() - 1 {
        lemma_lens_sum_nonneg(ls.drop_last());
    } else {
        lemma_lens_sum_each(ls.drop_last(), i);
    }
}

pub proof fn lemma_lens_sum_nonneg(ls: Seq<Seq<char>>)
    ensures
        lens_sum(ls) >= 0,
    decreases ls.len(),
{
    if ls.len() > 0 {
        lemma_lens_sum_nonneg(ls.drop_last());
    }
}

/// A prefix of the lines has no greater total length than all of them.
pub proof fn lemma_lens_sum_take_le(ls: Seq<Seq<char>>, k: int)
    requires
        0 <= k <= ls.len(),
    ensures
        lens_sum(ls.take(k)) <= lens_sum(ls),
    decreases ls.len() - k,
{
    if k < ls.len() {
        lemma_lens_sum_take_le(ls, k + 1);
        assert(ls.take(k + 1).drop_last() =~= ls.take(k));
    } else {
        assert(ls.take(k) =~= ls);
    }
}

/// The lines of the given text, in order.
pub fn split_lines(text: &Vec<char>) -> (r: Vec<Vec<char>>)
    ensures
        views(r@) == spec_lines(text@),
{
    let mut lines: Vec<Vec<char>> = Vec::new();
    let mut cur: Vec<char> = Vec::new();
    let mut i: usize = 0;
    while i < text.len()
        invariant
            i <= text.len(),
            views(lines@) == lines_fold(text@.take(i as int)).0,
            cur@ == lines_fold(text@.take(i as int)).1,
        decreases text.len() - i,
    {
        let c = text[i];
        proof {
            assert(text@.take(i + 1 as int).drop_last() =~= text@.take(i as int));
            assert(text@.take(i + 1 as int).last() == text@[i as int]);
        }
        if c == '\n' {
            let ghost prev = cur@;
            if cur.len() > 0 && cur[cur.len() - 1] == '\r' {
                cur.pop();
            }
            assert(cur@ == strip_cr(prev));
            lines.push(cur);
            assert(views(lines@) =~= lines_fold(text@.take(i + 1 as int)).0);
            cur = Vec::new();
        } else {
            cur.push(c);
        }
        i = i + 1;
    }
    assert(text@.take(text@.len() as int) =~= text@);
    if cur.len() > 0 {
        lines.push(cur);
        assert(views(lines@) =~= spec_lines(text@));
    }
    lines
}

} // verus!
