//! Formatting helpers: decimal representation of counts and line numbers,
//! comma-joined number lists, separator-joined location lists, and the
//! truncation policy for long location lists.

use vstd::prelude::*;

use crate::text::string_of;

verus! {

/// The decimal digit character for `d % 10`.
pub open spec fn dec_digit(d: nat) -> char {
    (((48 + d % 10) as u8) as char)
}

/// The decimal representation of `n`, most significant digit first.
pub open spec fn dec_rep(n: nat) -> Seq<char>
    decreases n,
{
    if n < 10 {
        seq![dec_digit(n)]
    } else {
        dec_rep(n / 10).push(dec_digit(n % 10))
    }
}

/// Appends the decimal representation of `n` to `out`.
pub fn push_dec(out: &mut Vec<char>, n: usize)
    ensures
        final(out)@ == old(out)@ + dec_rep(n as nat),
    decreases n,
{
    if n >= 10 {
        push_dec(out, n / 10);
        let d: char = ((48 + (n % 10)) as u8) as char;
        out.push(d);
        assert(old(out)@ + dec_rep(n as nat) =~= (old(out)@ + dec_rep((n / 10) as nat)).push(
            dec_digit(n as nat),
        ));
    } else {
        let d: char = ((48 + n) as u8) as char;
        out.push(d);
        assert(old(out)@ + dec_rep(n as nat) =~= old(out)@.push(dec_digit(n as nat)));
    }
}

/// The numbers joined by commas, each in decimal; empty for an empty list.
pub open spec fn join_commas(nums: Seq<usize>) -> Seq<char>
    decreases nums.len(),
{
    if nums.len() == 0 {
        Seq::empty()
    } else if nums.len() == 1 {
        dec_rep(nums[0] as nat)
    } else {
        join_commas(nums.drop_last()) + seq![','] + dec_rep(nums.last() as nat)
    }
}

/// Appends the comma-joined decimal forms of `nums` to `out`.
pub fn push_join_commas(out: &mut Vec<char>, nums: &Vec<usize>)
    ensures
        final(out)@ == old(out)@ + join_commas(nums@),
{
    let mut i: usize = 0;
    while i < nums.len()
        invariant
            i <= nums.len(),
            out@ == old(out)@ + join_commas(nums@.take(i as int)),
        decreases nums.len() - i,
    {
        if i > 0 {
            out.push(',');
        }
        push_dec(out, nums[i]);
        proof {
            let t1 = nums@.take(i + 1 as int);
            assert(t1.drop_last() =~= nums@.take(i as int));
            assert(t1.last() == nums@[i as int]);
            if i == 0 {
                assert(old(out)@ + join_commas(t1) =~= old(out)@ + dec_rep(
                    nums@[0] as nat,
                ));
            } else {
                assert(old(out)@ + join_commas(t1) =~= ((old(out)@ + join_commas(
                    nums@.take(i as int),
                )).push(',')) + dec_rep(nums@[i as int] as nat));
            }
        }
        i = i + 1;
    }
    assert(nums@.take(nums@.len() as int) =~= nums@);
}

/// The comma-joined decimal forms of the given numbers.
pub fn join_usize(nums: &Vec<usize>) -> (r: String)
    ensures
        r@ == join_commas(nums@),
{
    let mut out: Vec<char> = Vec::new();
    push_join_commas(&mut out, nums);
    string_of(&out)
}

/// The views of a sequence of character vectors.
pub open spec fn views(items: Seq<Vec<char>>) -> Seq<Seq<char>> {
    items.map_values(|v: Vec<char>| v@)
}

/// The items joined by the separator; empty for an empty list.
pub open spec fn join_sep(items: Seq<Seq<char>>, sep: Seq<char>) -> Seq<char>
    decreases items.len(),
{
    if items.len() == 0 {
        Seq::empty()
    } else if items.len() == 1 {
        items[0]
    } else {
        join_sep(items.drop_last(), sep) + sep + items.last()
    }
}

/// Appends the first `upto` items of `items`, joined by `sep`, to `out`.
pub fn push_join_upto(out: &mut Vec<char>, items: &Vec<Vec<char>>, upto: usize, sep: &str)
    requires
        upto <= items@.len(),
    ensures
        final(out)@ == old(out)@ + join_sep(views(items@).take(upto as int), sep@),
{
    let mut i: usize = 0;
    while i < upto
        invariant
            upto <= items@.len(),
            i <= upto,
            out@ == old(out)@ + join_sep(views(items@).take(i as int), sep@),
        decreases upto - i,
    {
        if i > 0 {
            crate::text::append_str_chars(out, sep);
        }
        crate::text::append_chars(out, &items[i]);
        proof {
            let t1 = views(items@).take(i + 1 as int);
            assert(t1.drop_last() =~= views(items@).take(i as int));
            assert(t1.last() == items@[i as int]@);
            if i == 0 {
                assert(old(out)@ + join_sep(t1, sep@) =~= old(out)@ + items@[0]@);
            } else {
                assert(old(out)@ + join_sep(t1, sep@) =~= ((old(out)@ + join_sep(
                    views(items@).take(i as int),
                    sep@,
                )) + sep@) + items@[i as int]@);
            }
        }
        i = i + 1;
    }
}

/// The rendering of a location list: up to five entries joined by `" | "`;
/// with more than five, the first five are shown, followed by a
/// `" | +{N} more files"` marker giving how many were left out.
pub open spec fn fmt_locs_spec(locs: Seq<Seq<char>>) -> Seq<char> {
    if locs.len() == 0 {
        Seq::<char>::empty()
    } else if locs.len() <= 5 {
        join_sep(locs, " | "@)
    } else {
        join_sep(locs.take(5), " | "@) + " | +"@ + dec_rep((locs.len() - 5) as nat)
            + " more files"@
    }
}

/// The location column text for a list of location strings.
pub fn format_locations(locs: &Vec<Vec<char>>) -> (r: String)
    ensures
        r@ == fmt_locs_spec(views(locs@)),
{
    let mut out: Vec<char> = Vec::new();
    if locs.len() <= 5 {
        push_join_upto(&mut out, locs, locs.len(), " | ");
        assert(views(locs@).take(locs@.len() as int) =~= views(locs@));
    } else {
        push_join_upto(&mut out, locs, 5, " | ");
        crate::text::append_str_chars(&mut out, " | +");
        push_dec(&mut out, locs.len() - 5);
        crate::text::append_str_chars(&mut out, " more files");
        assert(out@ =~= fmt_locs_spec(views(locs@)));
    }
    string_of(&out)
}

} // verus!
