//! Byte-level removal of ANSI SGR escape sequences: an `ESC [` opener and
//! everything up to and including the final byte (`'@'..='~'`) are dropped;
//! every other byte is kept, pushed as one character.

use vstd::prelude::*;
use vstd::string::StringSliceAdditionalSpecFns;
use vstd::string::StrSliceExecFns;

use crate::text::string_of;

verus! {

/// The position just past the end of an escape sequence whose parameters
/// start at `i`: bytes run until the first final byte (`0x40..=0x7e`),
/// which is consumed too.
pub open spec fn sgr_end(bs: Seq<u8>, i: int) -> int
    decreases bs.len() - i,
{
    if i < 0 || i >= bs.len() {
        i
    } else if 0x40 <= bs[i] && bs[i] <= 0x7e {
        i + 1
    } else {
        sgr_end(bs, i + 1)
    }
}

proof fn lemma_sgr_end_ge(bs: Seq<u8>, i: int)
    ensures
        sgr_end(bs, i) >= i,
    decreases bs.len() - i,
{
    if !(i < 0 || i >= bs.len()) && !(0x40 <= bs[i] && bs[i] <= 0x7e) {
        lemma_sgr_end_ge(bs, i + 1);
    }
}

/// The stripped characters of the bytes from position `i` on.
pub open spec fn strip_from(bs: Seq<u8>, i: int) -> Seq<char>
    decreases bs.len() - i,
    via strip_from_dec
{
    if i < 0 || i >= bs.len() {
        Seq::empty()
    } else if bs[i] == 0x1b && i + 1 < bs.len() && bs[i + 1] == 0x5b {
        strip_from(bs, sgr_end(bs, i + 2))
    } else {
        seq![bs[i] as char] + strip_from(bs, i + 1)
    }
}

proof fn lemma_sgr_end_le(bs: Seq<u8>, i: int)
    requires
        i <= bs.len(),
    ensures
        sgr_end(bs, i) <= bs.len(),
    decreases bs.len() - i,
{
    if !(i < 0 || i >= bs.len()) && !(0x40 <= bs[i] && bs[i] <= 0x7e) {
        lemma_sgr_end_le(bs, i + 1);
    }
}

#[via_fn]
proof fn strip_from_dec(bs: Seq<u8>, i: int) {
    if !(i < 0 || i >= bs.len()) && bs[i] == 0x1b && i + 1 < bs.len() && bs[i + 1] == 0x5b {
        lemma_sgr_end_ge(bs, i + 2);
        lemma_sgr_end_le(bs, i + 2);
    }
}

/// The whole input with every SGR escape sequence removed, each remaining
/// byte kept as one character.
pub open spec fn strip_spec(bs: Seq<u8>) -> Seq<char> {
    strip_from(bs, 0)
}

/// Removes ANSI SGR escape sequences from the text, byte by byte.
pub fn strip_ansi_sgr(s: &str) -> (r: String)
    ensures
        r@ == strip_spec(s.spec_bytes()),
{
    let bytes: Vec<u8> = s.as_bytes_vec();
    let n = bytes.len();
    let mut out: Vec<char> = Vec::new();
    let mut i: usize = 0;
    while i < n
        invariant
            n == bytes@.len(),
            bytes@ == s.spec_bytes(),
            i <= n,
            strip_from(bytes@, 0) == out@ + strip_from(bytes@, i as int),
        decreases n - i,
    {
        if bytes[i] == 0x1b && i + 1 < n && bytes[i + 1] == 0x5b {
            // Skip the parameters and the final byte of the sequence.
            let mut j: usize = i + 2;
            let mut done = false;
            while j < n && !done
                invariant
                    n == bytes@.len(),
                    i + 2 <= j,
                    j <= n,
                    !done ==> sgr_end(bytes@, i + 2) == sgr_end(bytes@, j as int),
                    done ==> sgr_end(bytes@, i + 2) == j,
                decreases n - j,
            {
                let b = bytes[j];
                if 0x40 <= b && b <= 0x7e {
                    proof {
                        assert(sgr_end(bytes@, j as int) == j + 1);
                    }
                    j = j + 1;
                    done = true;
                } else {
                    j = j + 1;
                }
            }
            proof {
                if !done {
                    assert(sgr_end(bytes@, j as int) == j);
                }
            }
            assert(sgr_end(bytes@, i + 2) == j as int);
            assert(strip_from(bytes@, i as int) == strip_from(bytes@, j as int));
            i = j;
        } else {
            let ghost prev = out@;
            let c: char = bytes[i] as char;
            out.push(c);
            proof {
                assert(strip_from(bytes@, i as int) == seq![bytes@[i as int] as char]
                    + strip_from(bytes@, i + 1 as int));
                assert(prev + (seq![bytes@[i as int] as char] + strip_from(
                    bytes@,
                    i + 1 as int,
                )) =~= out@ + strip_from(bytes@, i + 1 as int));
            }
            i = i + 1;
        }
    }
    assert(strip_from(bytes@, i as int) =~= Seq::<char>::empty());
    assert(out@ =~= strip_from(bytes@, 0));
    string_of(&out)
}

} // verus!
