//! Laying out numbers and text in columns.
use crate::text::push_bytes;
use vstd::prelude::*;

verus! {

/// The digit, in base 10 or 16 with capital letters, for a value below 16.
pub open spec fn digit(value: nat) -> u8 {
    if value < 10 {
        ('0' as u8 + value) as u8
    } else {
        ('A' as u8 + (value - 10)) as u8
    }
}

/// The digits of a number in base 16, or else in base 10, without leading
/// zeros.
pub open spec fn digits(n: nat, base: nat) -> Seq<u8>
    decreases n,
{
    if base == 16 {
        if n < 16 {
            seq![digit(n)]
        } else {
            digits(n / 16, 16).push(digit(n % 16))
        }
    } else {
        if n < 10 {
            seq![digit(n)]
        } else {
            digits(n / 10, base).push(digit(n % 10))
        }
    }
}

/// A run of `count` copies of a byte.
pub open spec fn fill(byte: u8, count: int) -> Seq<u8> {
    Seq::new(
        if count > 0 {
            count as nat
        } else {
            0
        },
        |i: int| byte,
    )
}

/// The text at the right of a column of the given width, the column filled
/// up with `byte`; the text alone where it is wider.
pub open spec fn right_aligned(text: Seq<u8>, width: nat, byte: u8) -> Seq<u8> {
    fill(byte, width - text.len()) + text
}

/// The text at the left of a column of the given width, the column filled
/// up with blanks.
pub open spec fn left_aligned(text: Seq<u8>, width: nat) -> Seq<u8> {
    text + fill(' ' as u8, width - text.len())
}

/// The text in the middle of a column of the given width; of an odd number
/// of blanks the right side gets one more.
pub open spec fn centered(text: Seq<u8>, width: nat) -> Seq<u8> {
    let blanks = width - text.len();
    fill(' ' as u8, blanks / 2) + text + fill(' ' as u8, blanks - blanks / 2)
}

/// A number in base 16 with capital letters, with leading zeros up to four
/// digits.
pub open spec fn hex4(n: nat) -> Seq<u8> {
    right_aligned(digits(n, 16), 4, '0' as u8)
}

/// A number in base 10 at the right of a column four wide.
pub open spec fn decimal4(n: nat) -> Seq<u8> {
    right_aligned(digits(n, 10), 4, ' ' as u8)
}

/// Appends `count` copies of a byte.
pub fn push_fill(buffer: &mut Vec<u8>, byte: u8, count: usize)
    ensures
        final(buffer)@ == old(buffer)@ + fill(byte, count as int),
{
    let mut i: usize = 0;
    while i < count
        invariant
            i <= count,
            buffer@ == old(buffer)@ + fill(byte, i as int),
        decreases count - i,
    {
        buffer.push(byte);
        i += 1;
        assert(buffer@ =~= old(buffer)@ + fill(byte, i as int));
    }
}

/// The digits of a number in base 10 or 16.
pub fn number_digits(n: usize, base: usize) -> (text: Vec<u8>)
    requires
        base == 10 || base == 16,
    ensures
        text@ == digits(n as nat, base as nat),
        text@.len() >= 1,
{
    // The digits come out last first.
    let mut reversed: Vec<u8> = Vec::new();
    let mut rest: usize = n;
    while rest >= base
        invariant
            base == 10 || base == 16,
            digits(n as nat, base as nat) == digits(rest as nat, base as nat) + reversed@.reverse(),
        decreases rest,
    {
        let low: usize = if base == 16 {
            rest % 16
        } else {
            rest % 10
        };
        let byte: u8 = if low < 10 {
            '0' as u8 + (low as u8)
        } else {
            'A' as u8 + ((low - 10) as u8)
        };
        proof {
            let shorter = if base == 16 {
                digits((rest / 16) as nat, base as nat)
            } else {
                digits((rest / 10) as nat, base as nat)
            };
            assert(digits(rest as nat, base as nat) == shorter.push(byte));
            assert(reversed@.push(byte).reverse() =~= seq![byte] + reversed@.reverse());
            assert(shorter.push(byte) + reversed@.reverse() =~= shorter + reversed@.push(
                byte,
            ).reverse());
        }
        reversed.push(byte);
        rest = if base == 16 {
            rest / 16
        } else {
            rest / 10
        };
    }
    let byte: u8 = if rest < 10 {
        '0' as u8 + (rest as u8)
    } else {
        'A' as u8 + ((rest - 10) as u8)
    };
    let mut text: Vec<u8> = Vec::new();
    text.push(byte);
    let mut i: usize = reversed.len();
    while i > 0
        invariant
            i <= reversed@.len(),
            text@ == seq![byte] + reversed@.reverse().subrange(0, reversed@.len() - i),
        decreases i,
    {
        i -= 1;
        text.push(reversed[i]);
        proof {
            let r = reversed@.reverse();
            let n = reversed@.len() - i;
            assert(r.subrange(0, n as int) =~= r.subrange(0, n - 1).push(r[n - 1]));
            assert(r[n - 1] == reversed@[i as int]);
            assert(text@ =~= seq![byte] + r.subrange(0, n as int));
        }
    }
    proof {
        let r = reversed@.reverse();
        assert(r.subrange(0, reversed@.len() as int) =~= r);
        assert(digits(rest as nat, base as nat) == seq![byte]);
    }
    text
}

/// Appends a number in base 16, with leading zeros up to four digits.
pub fn push_hex4(buffer: &mut Vec<u8>, n: usize)
    ensures
        final(buffer)@ == old(buffer)@ + hex4(n as nat),
{
    let text: Vec<u8> = number_digits(n, 16);
    let mut padded: Vec<u8> = Vec::new();
    if text.len() < 4 {
        push_fill(&mut padded, '0' as u8, 4 - text.len());
    } else {
        assert(fill('0' as u8, 4 - text@.len()) =~= Seq::<u8>::empty());
    }
    push_bytes(&mut padded, text.as_slice());
    assert(padded@ =~= hex4(n as nat));
    push_bytes(buffer, padded.as_slice());
}

/// Appends a number in base 10 at the right of a column four wide.
pub fn push_decimal4(buffer: &mut Vec<u8>, n: usize)
    ensures
        final(buffer)@ == old(buffer)@ + decimal4(n as nat),
{
    let text: Vec<u8> = number_digits(n, 10);
    let mut padded: Vec<u8> = Vec::new();
    if text.len() < 4 {
        push_fill(&mut padded, ' ' as u8, 4 - text.len());
    } else {
        assert(fill(' ' as u8, 4 - text@.len()) =~= Seq::<u8>::empty());
    }
    push_bytes(&mut padded, text.as_slice());
    assert(padded@ =~= decimal4(n as nat));
    push_bytes(buffer, padded.as_slice());
}

/// Appends a number in base 10.
pub fn push_decimal(buffer: &mut Vec<u8>, n: usize)
    ensures
        final(buffer)@ == old(buffer)@ + digits(n as nat, 10),
{
    let text: Vec<u8> = number_digits(n, 10);
    push_bytes(buffer, text.as_slice());
}

/// Appends a text at the left of a column of the given width.
pub fn push_left_aligned(buffer: &mut Vec<u8>, text: &[u8], width: usize)
    ensures
        final(buffer)@ == old(buffer)@ + left_aligned(text@, width as nat),
{
    let mut padded: Vec<u8> = Vec::new();
    push_bytes(&mut padded, text);
    if text.len() < width {
        push_fill(&mut padded, ' ' as u8, width - text.len());
    } else {
        assert(fill(' ' as u8, width - text@.len()) =~= Seq::<u8>::empty());
    }
    assert(padded@ =~= left_aligned(text@, width as nat));
    push_bytes(buffer, padded.as_slice());
}

/// Appends a text in the middle of a column of the given width.
pub fn push_centered(buffer: &mut Vec<u8>, text: &[u8], width: usize)
    ensures
        final(buffer)@ == old(buffer)@ + centered(text@, width as nat),
{
    let mut padded: Vec<u8> = Vec::new();
    if text.len() < width {
        let blanks: usize = width - text.len();
        push_fill(&mut padded, ' ' as u8, blanks / 2);
        push_bytes(&mut padded, text);
        push_fill(&mut padded, ' ' as u8, blanks - blanks / 2);
    } else {
        push_bytes(&mut padded, text);
        proof {
            let blanks = width - text@.len();
            assert(fill(' ' as u8, blanks / 2) =~= Seq::<u8>::empty());
            assert(fill(' ' as u8, blanks - blanks / 2) =~= Seq::<u8>::empty());
        }
    }
    assert(padded@ =~= centered(text@, width as nat));
    push_bytes(buffer, padded.as_slice());
}

} // verus!
