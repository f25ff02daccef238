use vstd::prelude::*;

use crate::Chip8Error;

verus! {

/// Progress of reading a hexadecimal program text, one byte at a time.
pub struct HexScan {
    /// Image bytes of the lines completed so far.
    pub image: Seq<u8>,
    /// Value of the digits read on the current line.
    pub value: int,
    /// Number of digits read on the current line.
    pub digits: int,
    /// Whether the current line has ended in a carriage return.
    pub cr: bool,
    /// Whether the text is already known to be malformed.
    pub bad: bool,
}

/// Value of an ASCII hexadecimal digit, upper or lower case.
pub open spec fn hex_digit(c: u8) -> Option<int> {
    if 0x30 <= c <= 0x39 {
        Some(c - 0x30)
    } else if 0x41 <= c <= 0x46 {
        Some(c - 0x41 + 10)
    } else if 0x61 <= c <= 0x66 {
        Some(c - 0x61 + 10)
    } else {
        None
    }
}

/// Appends the big-endian bytes of a 16-bit word.
pub open spec fn push_word(image: Seq<u8>, word: int) -> Seq<u8> {
    image.push((word / 256) as u8).push((word % 256) as u8)
}

/// Reading one more byte. A line is one to four hexadecimal digits,
/// optionally followed by a carriage return, and ends at a newline.
pub open spec fn hex_step(s: HexScan, c: u8) -> HexScan {
    if s.bad {
        s
    } else if c == 0x0A {
        if s.digits == 0 {
            HexScan { bad: true, ..s }
        } else {
            HexScan { image: push_word(s.image, s.value), value: 0, digits: 0, cr: false, bad: false }
        }
    } else if s.cr {
        HexScan { bad: true, ..s }
    } else if c == 0x0D {
        HexScan { cr: true, ..s }
    } else if hex_digit(c) is Some && s.digits < 4 {
        HexScan { value: s.value * 16 + hex_digit(c)->0, digits: s.digits + 1, ..s }
    } else {
        HexScan { bad: true, ..s }
    }
}

/// The state after reading all of `text`.
pub open spec fn hex_scan(text: Seq<u8>) -> HexScan
    decreases text.len(),
{
    if text.len() == 0 {
        HexScan { image: Seq::empty(), value: 0, digits: 0, cr: false, bad: false }
    } else {
        hex_step(hex_scan(text.drop_last()), text.last())
    }
}

/// The program image that a hexadecimal text describes: each line's 16-bit
/// value as two bytes, high byte first. `None` where the text is malformed.
/// The last line needs no newline.
pub open spec fn hex_image(text: Seq<u8>) -> Option<Seq<u8>> {
    let s = hex_scan(text);
    if s.bad || s.cr {
        None
    } else if s.digits > 0 {
        Some(push_word(s.image, s.value))
    } else {
        Some(s.image)
    }
}

/// Value of an ASCII hexadecimal digit ('0'..'9', 'A'..'F', 'a'..'f').
fn hex_digit_value(c: u8) -> (r: Option<u8>)
    ensures
        hex_digit(c) is Some ==> r is Some && r->0 == hex_digit(c)->0,
        hex_digit(c) is None ==> r is None,
{
    if 0x30u8 <= c && c <= 0x39u8 {
        Some(c - 0x30u8)
    } else if 0x41u8 <= c && c <= 0x46u8 {
        Some(c - 0x41u8 + 10)
    } else if 0x61u8 <= c && c <= 0x66u8 {
        Some(c - 0x61u8 + 10)
    } else {
        None
    }
}

/// Turns a hexadecimal program text into the image bytes it describes;
/// fails exactly where the text is malformed.
pub fn parse_hex_program(text: &[u8]) -> (r: Result<Vec<u8>, Chip8Error>)
    ensures
        hex_image(text@) is Some ==> r is Ok && r->Ok_0@ == hex_image(text@)->0,
        hex_image(text@) is None ==> r == Err::<Vec<u8>, Chip8Error>(Chip8Error::MalformedHex),
{
    let mut image: Vec<u8> = Vec::new();
    let mut value: u16 = 0;
    let mut digits: usize = 0;
    let mut cr = false;
    let mut i: usize = 0;
    while i < text.len()
        invariant
            i <= text@.len(),
            digits <= 4,
            value < pow16(digits),
            hex_scan(text@.take(i as int)) == (HexScan {
                image: image@,
                value: value as int,
                digits: digits as int,
                cr,
                bad: false,
            }),
        decreases text@.len() - i,
    {
        let c = text[i];
        assert(text@.take(i + 1).drop_last() =~= text@.take(i as int));
        if c == 0x0Au8 {
            // newline: the line ends
            if digits == 0 {
                proof {
                    lemma_bad_stays(text@, (i + 1) as int);
                }
                return Err(Chip8Error::MalformedHex);
            }
            image.push((value / 256) as u8);
            image.push((value % 256) as u8);
            value = 0;
            digits = 0;
            cr = false;
        } else if cr {
            proof {
                lemma_bad_stays(text@, (i + 1) as int);
            }
            return Err(Chip8Error::MalformedHex);
        } else if c == 0x0Du8 {
            // carriage return: only a newline may follow
            cr = true;
        } else {
            match hex_digit_value(c) {
                Some(d) if digits < 4 => {
                    proof {
                        lemma_pow16_step(digits as int, value as int, d as int);
                    }
                    value = value * 16 + d as u16;
                    digits = digits + 1;
                },
                _ => {
                    proof {
                        lemma_bad_stays(text@, (i + 1) as int);
                    }
                    return Err(Chip8Error::MalformedHex);
                },
            }
        }
        i = i + 1;
    }
    assert(text@.take(text@.len() as int) =~= text@);
    if cr {
        return Err(Chip8Error::MalformedHex);
    }
    if digits > 0 {
        image.push((value / 256) as u8);
        image.push((value % 256) as u8);
    }
    Ok(image)
}

/// 16 to the power `n`, for `n` up to 4.
spec fn pow16(n: usize) -> int {
    if n == 0 {
        1
    } else if n == 1 {
        16
    } else if n == 2 {
        256
    } else if n == 3 {
        4096
    } else {
        65536
    }
}

proof fn lemma_pow16_step(n: int, value: int, d: int)
    requires
        0 <= n < 4,
        0 <= value < pow16(n as usize),
        0 <= d < 16,
    ensures
        value * 16 + d < pow16((n + 1) as usize),
{
}

/// Once the text read so far is malformed, the whole text is.
proof fn lemma_bad_stays(text: Seq<u8>, i: int)
    requires
        0 <= i <= text.len(),
        hex_scan(text.take(i)).bad,
    ensures
        hex_image(text) is None,
    decreases text.len() - i,
{
    if i < text.len() {
        assert(text.take(i + 1).drop_last() =~= text.take(i));
        lemma_bad_stays(text, i + 1);
    } else {
        assert(text.take(i) =~= text);
    }
}

} // verus!
