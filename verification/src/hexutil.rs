//! Hexadecimal encoding and decoding of byte strings, verified against
//! direct specifications over `Seq<char>` and `Seq<u8>`.

use vstd::prelude::*;
use vstd::string::*;

verus! {

/// Value of one hexadecimal digit; `None` for any other character.
pub open spec fn hex_val(c: char) -> Option<u8> {
    let v = c as u32;
    if 48 <= v <= 57 {
        Some((v - 48) as u8)
    } else if 97 <= v <= 102 {
        Some((v - 87) as u8)
    } else if 65 <= v <= 70 {
        Some((v - 55) as u8)
    } else {
        None
    }
}

/// Bytes denoted by a hexadecimal string: two digits per byte, upper or lower
/// case; `None` when the length is odd or a character is no hex digit.
pub open spec fn hex_to_bytes(s: Seq<char>) -> Option<Seq<u8>>
    decreases s.len(),
{
    if s.len() == 0 {
        Some(Seq::empty())
    } else if s.len() == 1 {
        None
    } else {
        match (hex_val(s[0]), hex_val(s[1])) {
            (Some(h), Some(l)) => match hex_to_bytes(s.skip(2)) {
                Some(rest) => Some(seq![(h * 16 + l) as u8] + rest),
                None => None,
            },
            _ => None,
        }
    }
}

/// The lower-case hexadecimal digit for a value below sixteen.
pub open spec fn nibble_char(n: int) -> char {
    if n == 0 { '0' } else if n == 1 { '1' } else if n == 2 { '2' } else if n == 3 { '3' }
    else if n == 4 { '4' } else if n == 5 { '5' } else if n == 6 { '6' } else if n == 7 { '7' }
    else if n == 8 { '8' } else if n == 9 { '9' } else if n == 10 { 'a' } else if n == 11 { 'b' }
    else if n == 12 { 'c' } else if n == 13 { 'd' } else if n == 14 { 'e' } else { 'f' }
}

/// The two lower-case hexadecimal digits of one byte.
pub open spec fn byte_hex(b: u8) -> Seq<char> {
    seq![nibble_char(b as int / 16), nibble_char(b as int % 16)]
}

/// The lower-case hexadecimal rendering of a byte string.
pub open spec fn hex_of(bs: Seq<u8>) -> Seq<char>
    decreases bs.len(),
{
    if bs.len() == 0 {
        Seq::empty()
    } else {
        hex_of(bs.drop_last()) + byte_hex(bs.last())
    }
}

/// Value of one hexadecimal digit character.
fn hex_val_exec(c: char) -> (r: Option<u8>)
    ensures
        r == hex_val(c),
{
    let v = c as u32;
    if 48 <= v && v <= 57 {
        Some((v - 48) as u8)
    } else if 97 <= v && v <= 102 {
        Some((v - 87) as u8)
    } else if 65 <= v && v <= 70 {
        Some((v - 55) as u8)
    } else {
        None
    }
}

/// Decodes a hexadecimal string to bytes; `None` when the string is no valid
/// even-length hexadecimal rendering.
pub fn hex_decode(s: &str) -> (r: Option<Vec<u8>>)
    ensures
        match r {
            Some(v) => hex_to_bytes(s@) == Some(v@),
            None => hex_to_bytes(s@) is None,
        },
    decreases s@.len(),
{
    let len = s.unicode_len();
    if len == 0 {
        let v: Vec<u8> = Vec::new();
        proof {
            assert(v@ =~= Seq::<u8>::empty());
        }
        return Some(v);
    }
    if len == 1 {
        return None;
    }
    let h = hex_val_exec(s.get_char(0));
    let l = hex_val_exec(s.get_char(1));
    match (h, l) {
        (Some(hv), Some(lv)) => {
            let tail = s.substring_char(2, len);
            proof {
                assert(tail@ =~= s@.skip(2));
            }
            match hex_decode(tail) {
                Some(mut rest) => {
                    let mut v: Vec<u8> = Vec::new();
                    v.push(hv * 16 + lv);
                    v.append(&mut rest);
                    proof {
                        assert(v@ =~= seq![(hv * 16 + lv) as u8] + hex_to_bytes(s@.skip(2))->Some_0);
                    }
                    Some(v)
                },
                None => None,
            }
        },
        _ => None,
    }
}

/// One step of `hex_of`: encoding a byte string extended by one byte appends
/// that byte's two digits.
proof fn lemma_hex_of_take_step(bs: Seq<u8>, i: int)
    requires
        0 <= i < bs.len(),
    ensures
        hex_of(bs.take(i + 1)) == hex_of(bs.take(i)) + byte_hex(bs[i]),
{
    assert(bs.take(i + 1).drop_last() =~= bs.take(i));
    assert(bs.take(i + 1).last() == bs[i]);
}

/// The one-character string of a hexadecimal digit.
fn nibble_str(n: u8) -> (r: &'static str)
    requires
        n < 16,
    ensures
        r@.len() == 1 && r@[0] == nibble_char(n as int),
{
    proof {
        reveal_strlit("0"); reveal_strlit("1"); reveal_strlit("2"); reveal_strlit("3");
        reveal_strlit("4"); reveal_strlit("5"); reveal_strlit("6"); reveal_strlit("7");
        reveal_strlit("8"); reveal_strlit("9"); reveal_strlit("a"); reveal_strlit("b");
        reveal_strlit("c"); reveal_strlit("d"); reveal_strlit("e"); reveal_strlit("f");
    }
    if n == 0 { "0" } else if n == 1 { "1" } else if n == 2 { "2" } else if n == 3 { "3" }
    else if n == 4 { "4" } else if n == 5 { "5" } else if n == 6 { "6" } else if n == 7 { "7" }
    else if n == 8 { "8" } else if n == 9 { "9" } else if n == 10 { "a" } else if n == 11 { "b" }
    else if n == 12 { "c" } else if n == 13 { "d" } else if n == 14 { "e" } else { "f" }
}

/// Encodes a byte string as lower-case hexadecimal.
pub fn hex_encode(bs: &Vec<u8>) -> (r: String)
    ensures
        r@ == hex_of(bs@),
{
    let mut out = String::new();
    let n = bs.len();
    let mut i: usize = 0;
    while i < n
        invariant
            n == bs@.len(),
            i <= n,
            out@ == hex_of(bs@.take(i as int)),
        decreases n - i,
    {
        let b = bs[i];
        out.append(nibble_str(b / 16));
        out.append(nibble_str(b % 16));
        proof {
            lemma_hex_of_take_step(bs@, i as int);
            assert(out@ =~= hex_of(bs@.take(i as int)) + byte_hex(bs@[i as int]));
        }
        i += 1;
    }
    proof {
        assert(bs@.take(n as int) =~= bs@);
    }
    out
}

} // verus!
