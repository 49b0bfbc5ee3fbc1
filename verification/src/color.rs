//! Color palette and hex color parsing.
//!
//! A color is a 24-bit value packed into a `u32` as `0xRRGGBB`. The palette
//! names the five roles a cheat-sheet drawing uses. A color written as a
//! string (`"#1A2B3C"`) is parsed by [`rgb`].

use vstd::prelude::*;

verus! {

/// The color palette of the overlay: one 24-bit `0xRRGGBB` value per role.
#[derive(Debug, Clone, Copy, PartialEq, Eq, Structural)]
pub struct Colors {
    /// The main background color
    pub background: u32,
    /// The main text / foreground color
    pub foreground: u32,
    /// The border color
    pub border: u32,
    /// The shortcut color
    pub shrot: u32,
    /// The about text color
    pub about: u32,
}

/// Whether `b` is an ASCII hex digit.
pub open spec fn is_hex_digit(b: u8) -> bool {
    (48 <= b <= 57) || (65 <= b <= 70) || (97 <= b <= 102)
}

/// The value of one ASCII hex digit.
pub open spec fn hex_digit_value(b: u8) -> int {
    if 48 <= b <= 57 {
        b - 48
    } else if 65 <= b <= 70 {
        b - 55
    } else {
        b - 87
    }
}

/// The value of a big-endian sequence of hex digits.
pub open spec fn hex_value(s: Seq<u8>) -> int
    decreases s.len(),
{
    if s.len() == 0 {
        0
    } else {
        hex_value(s.drop_last()) * 16 + hex_digit_value(s.last())
    }
}

/// The digits of a color string: everything after its leading `#` signs.
pub open spec fn hex_digits(s: Seq<u8>) -> Seq<u8>
    decreases s.len(),
{
    if s.len() > 0 && s[0] == 35 {
        hex_digits(s.drop_first())
    } else {
        s
    }
}

/// Whether a color string is well formed: after the leading `#` signs,
/// between one and six hex digits (a 24-bit value).
pub open spec fn valid_color(s: Seq<u8>) -> bool {
    &&& 1 <= hex_digits(s).len() <= 6
    &&& forall|i: int| 0 <= i < hex_digits(s).len() ==> is_hex_digit(hex_digits(s)[i])
}

/// The color a well-formed color string denotes.
pub open spec fn color_value(s: Seq<u8>) -> int {
    hex_value(hex_digits(s))
}

proof fn lemma_hex_value_bound(s: Seq<u8>, bound: int)
    requires
        forall|i: int| 0 <= i < s.len() ==> is_hex_digit(s[i]),
        s.len() <= bound,
    ensures
        0 <= hex_value(s) < pow16(bound),
    decreases s.len(),
{
    if s.len() == 0 {
        lemma_pow16_positive(bound);
    } else {
        lemma_hex_value_bound(s.drop_last(), bound - 1);
        assert(0 <= hex_digit_value(s.last()) < 16);
        assert(pow16(bound) == pow16(bound - 1) * 16);
    }
}

/// Sixteen to a non-negative power.
pub open spec fn pow16(n: int) -> int
    decreases n,
{
    if n <= 0 {
        1
    } else {
        pow16(n - 1) * 16
    }
}

proof fn lemma_pow16_positive(n: int)
    ensures
        pow16(n) >= 1,
    decreases n,
{
    if n > 0 {
        lemma_pow16_positive(n - 1);
    }
}

/// Parses a color string, given as bytes, into a packed `0xRRGGBB` value:
/// leading `#` signs are skipped, then between one and six hex digits are
/// read. Any other input yields `None`.
pub fn rgb(hex: &[u8]) -> (r: Option<u32>)
    ensures
        valid_color(hex@) ==> r == Some(color_value(hex@) as u32),
        !valid_color(hex@) ==> r is None,
{
    let mut start: usize = 0;
    proof {
        assert(hex@.skip(0) =~= hex@);
    }
    while start < hex.len() && hex[start] == 35
        invariant
            0 <= start <= hex@.len(),
            forall|k: int| 0 <= k < start ==> hex@[k] == 35,
            hex_digits(hex@) == hex_digits(hex@.skip(start as int)),
        decreases hex@.len() - start,
    {
        proof {
            assert(hex@.skip(start as int).drop_first() =~= hex@.skip(start as int + 1));
        }
        start = start + 1;
    }
    proof {
        assert(hex@.skip(start as int) =~= hex_digits(hex@.skip(start as int)));
        assert(hex_digits(hex@) =~= hex@.skip(start as int));
    }
    let n = hex.len() - start;
    if n < 1 || n > 6 {
        return None;
    }
    let mut value: u32 = 0;
    let mut i: usize = start;
    while i < hex.len()
        invariant
            start <= i <= hex@.len(),
            hex@.len() - start <= 6,
            hex_digits(hex@) == hex@.skip(start as int),
            forall|k: int| start <= k < i ==> is_hex_digit(hex@[k]),
            value == hex_value(hex@.subrange(start as int, i as int)),
            0 <= value < pow16(i - start),
        decreases hex@.len() - i,
    {
        let b = hex[i];
        let d: u32 = if 48 <= b && b <= 57 {
            (b - 48) as u32
        } else if 65 <= b && b <= 70 {
            (b - 55) as u32
        } else if 97 <= b && b <= 102 {
            (b - 87) as u32
        } else {
            proof {
                assert(!is_hex_digit(hex_digits(hex@)[i - start]));
            }
            return None;
        };
        proof {
            lemma_hex_value_bound(hex@.subrange(start as int, i as int), 5);
            assert(pow16(5) == 0x100000) by {
                assert(pow16(0) == 1);
                assert(pow16(1) == 16);
                assert(pow16(2) == 0x100);
                assert(pow16(3) == 0x1000);
                assert(pow16(4) == 0x10000);
            }
            assert(hex@.subrange(start as int, i + 1).drop_last() =~= hex@.subrange(
                start as int,
                i as int,
            ));
        }
        value = value * 16 + d;
        i = i + 1;
    }
    proof {
        assert(hex@.subrange(start as int, hex@.len() as int) =~= hex@.skip(start as int));
    }
    Some(value)
}

} // verus!
