//! Hexadecimal text of bytes: lowercase when written, either case when read
//! (the behaviour of `hex::encode` and `hex::decode`).

use vstd::prelude::*;

use crate::text::string_from_chars;

verus! {

/// The lowercase hex digit of a value below 16.
pub open spec fn nibble_char(n: u8) -> char {
    if n < 10 {
        (48 + n) as char
    } else {
        (87 + n) as char
    }
}

/// The lowercase hex text of bytes, two digits per byte, high nibble first.
pub open spec fn hex_lower(b: Seq<u8>) -> Seq<char>
    decreases b.len(),
{
    if b.len() == 0 {
        Seq::empty()
    } else {
        hex_lower(b.drop_last()) + seq![nibble_char(b.last() / 16), nibble_char(b.last() % 16)]
    }
}

/// The value of a hex digit byte of either case.
pub open spec fn hex_value(c: u8) -> Option<u8> {
    if 65 <= c <= 70 {
        Some((c - 55) as u8)
    } else if 97 <= c <= 102 {
        Some((c - 87) as u8)
    } else if 48 <= c <= 57 {
        Some((c - 48) as u8)
    } else {
        None
    }
}

/// The bytes a hex text denotes, or `None` where its length is odd or a byte
/// is not a hex digit.
pub open spec fn spec_hex_decode(s: Seq<u8>) -> Option<Seq<u8>>
    decreases s.len(),
{
    if s.len() % 2 != 0 {
        None
    } else if s.len() == 0 {
        Some(Seq::empty())
    } else {
        match (hex_value(s[0]), hex_value(s[1]), spec_hex_decode(s.subrange(2, s.len() as int))) {
            (Some(h), Some(l), Some(rest)) => Some(seq![(h * 16 + l) as u8] + rest),
            _ => None,
        }
    }
}

fn nibble(n: u8) -> (c: char)
    requires
        n < 16,
    ensures
        c == nibble_char(n),
{
    if n == 0 { '0' } else if n == 1 { '1' } else if n == 2 { '2' } else if n == 3 { '3' }
    else if n == 4 { '4' } else if n == 5 { '5' } else if n == 6 { '6' } else if n == 7 { '7' }
    else if n == 8 { '8' } else if n == 9 { '9' } else if n == 10 { 'a' } else if n == 11 { 'b' }
    else if n == 12 { 'c' } else if n == 13 { 'd' } else if n == 14 { 'e' } else { 'f' }
}

/// The lowercase hex text of bytes.
pub fn encode_hex(data: &[u8]) -> (r: String)
    ensures
        r@ == hex_lower(data@),
{
    let mut cs: Vec<char> = Vec::new();
    let mut i: usize = 0;
    while i < data.len()
        invariant
            i <= data.len(),
            cs@ == hex_lower(data@.subrange(0, i as int)),
        decreases data.len() - i,
    {
        let b = data[i];
        cs.push(nibble(b / 16));
        cs.push(nibble(b % 16));
        assert(data@.subrange(0, i + 1).drop_last() =~= data@.subrange(0, i as int));
        assert(cs@ =~= hex_lower(data@.subrange(0, i as int)) + seq![
            nibble_char(b / 16),
            nibble_char(b % 16),
        ]);
        i = i + 1;
    }
    assert(data@.subrange(0, data.len() as int) =~= data@);
    string_from_chars(&cs)
}

fn hex_digit_value(c: u8) -> (r: Option<u8>)
    ensures
        r == hex_value(c),
{
    if 65 <= c && c <= 70 {
        Some(c - 55)
    } else if 97 <= c && c <= 102 {
        Some(c - 87)
    } else if 48 <= c && c <= 57 {
        Some(c - 48)
    } else {
        None
    }
}

/// The bytes a hex text denotes (`hex::decode`).
pub fn decode_hex(s: &[u8]) -> (r: Option<Vec<u8>>)
    ensures
        r is Some == spec_hex_decode(s@) is Some,
        r matches Some(v) ==> v@ == spec_hex_decode(s@)->0,
{
    if s.len() % 2 != 0 {
        return None;
    }
    let mut out: Vec<u8> = Vec::new();
    let mut i: usize = 0;
    assert(s@.subrange(0, s.len() as int) =~= s@);
    proof {
        match spec_hex_decode(s@) {
            Some(rest) => {
                assert(out@ + rest =~= rest);
            },
            None => {},
        }
    }
    while i < s.len()
        invariant
            s.len() % 2 == 0,
            i % 2 == 0,
            i <= s.len(),
            spec_hex_decode(s@) == match spec_hex_decode(s@.subrange(i as int, s.len() as int)) {
                Some(rest) => Some(out@ + rest),
                None => None,
            },
        decreases s.len() - i,
    {
        let ghost t = s@.subrange(i as int, s.len() as int);
        assert(t.subrange(2, t.len() as int) =~= s@.subrange(i + 2, s.len() as int));
        let h = hex_digit_value(s[i]);
        let l = hex_digit_value(s[i + 1]);
        match (h, l) {
            (Some(h), Some(l)) => {
                let b: u8 = h * 16 + l;
                proof {
                    match spec_hex_decode(s@.subrange(i + 2, s.len() as int)) {
                        Some(rest) => {
                            assert(out@ + (seq![b] + rest) =~= out@.push(b) + rest);
                        },
                        None => {},
                    }
                }
                out.push(b);
            },
            _ => {
                return None;
            },
        }
        i = i + 2;
    }
    assert(s@.subrange(s.len() as int, s.len() as int) =~= Seq::empty());
    assert(out@ + Seq::<u8>::empty() =~= out@);
    Some(out)
}

} // verus!
