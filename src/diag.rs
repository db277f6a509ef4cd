//! Text for diagnostic output: bytes shown as upper-case hexadecimal.

use vstd::prelude::*;

verus! {

/// The ASCII character of the hexadecimal digit `n` (below 16), upper case.
pub open spec fn hex_char(n: u8) -> u8 {
    if n < 10 {
        (48 + n) as u8
    } else {
        (55 + n) as u8
    }
}

/// The two hexadecimal digits of a byte, high digit first.
pub open spec fn hex_pair(v: u8) -> Seq<u8> {
    seq![hex_char(v / 16), hex_char(v % 16)]
}

/// The bytes as hexadecimal pairs separated by single spaces.
pub open spec fn hex_list(b: Seq<u8>) -> Seq<u8>
    decreases b.len(),
{
    if b.len() == 0 {
        Seq::empty()
    } else if b.len() == 1 {
        hex_pair(b[0])
    } else {
        hex_list(b.drop_last()) + seq![32u8] + hex_pair(b.last())
    }
}

/// The bytes as hexadecimal pairs in square brackets: `[11 22 33]`.
pub open spec fn hex_slice_text(b: Seq<u8>) -> Seq<u8> {
    seq![91u8] + hex_list(b) + seq![93u8]
}

fn hex_digit(n: u8) -> (r: u8)
    requires
        n < 16,
    ensures
        r == hex_char(n),
{
    if n < 10 {
        48 + n
    } else {
        55 + n
    }
}

/// The two hexadecimal digits of `v`, high digit first.
pub fn hex_byte(v: u8) -> (r: (u8, u8))
    ensures
        seq![r.0, r.1] == hex_pair(v),
{
    (hex_digit(v / 16), hex_digit(v % 16))
}

/// `slice` as hexadecimal pairs in square brackets, separated by spaces.
pub fn hex_slice(slice: &Vec<u8>) -> (r: Vec<u8>)
    ensures
        r@ == hex_slice_text(slice@),
{
    let mut out: Vec<u8> = Vec::new();
    out.push(91u8);
    let mut i: usize = 0;
    while i < slice.len()
        invariant
            i <= slice.len(),
            out@ == seq![91u8] + hex_list(slice@.take(i as int)),
        decreases slice.len() - i,
    {
        if i > 0 {
            out.push(32u8);
        }
        let (h, l) = hex_byte(slice[i]);
        out.push(h);
        out.push(l);
        proof {
            let t = slice@.take(i + 1);
            assert(t.drop_last() =~= slice@.take(i as int));
            assert(t.last() == slice@[i as int]);
            if i == 0 {
                assert(slice@.take(0) =~= Seq::<u8>::empty());
            }
        }
        assert(out@ =~= seq![91u8] + hex_list(slice@.take(i + 1)));
        i = i + 1;
    }
    out.push(93u8);
    assert(slice@.take(slice.len() as int) =~= slice@);
    assert(out@ =~= hex_slice_text(slice@));
    out
}

} // verus!
