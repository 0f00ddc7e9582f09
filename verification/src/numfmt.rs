//! Decimal and hexadecimal text for unsigned integers, as `format!` writes
//! them with `{}`, `{:04}` and `{:x}`.

use vstd::prelude::*;

verus! {

/// The ASCII byte of the decimal digit `d`.
pub open spec fn digit_byte(d: nat) -> u8 {
    (d + 48) as u8
}

/// Decimal digits of `n`, most significant first, without leading zeros
/// (`0` is written as a single digit).
pub open spec fn decimal(n: nat) -> Seq<u8>
    decreases n,
{
    if n < 10 {
        seq![digit_byte(n)]
    } else {
        decimal(n / 10).push(digit_byte(n % 10))
    }
}

/// Appends the decimal text of `n` to `buf`.
pub fn push_decimal(buf: &mut Vec<u8>, n: u64)
    ensures
        final(buf)@ == old(buf)@ + decimal(n as nat),
    decreases n,
{
    if n >= 10 {
        push_decimal(buf, n / 10);
    }
    let d: u8 = (n % 10) as u8;
    buf.push(d + 48);
    proof {
        if n >= 10 {
            assert(decimal(n as nat) == decimal((n / 10) as nat).push(digit_byte((n % 10) as nat)));
        }
    }
}


/// Numeric value of a run of decimal digit bytes (a non-digit byte counts as 0).
pub open spec fn digits_value(s: Seq<u8>) -> nat
    decreases s.len(),
{
    if s.len() == 0 {
        0
    } else {
        digits_value(s.drop_last()) * 10 + digit_of(s.last())
    }
}

/// Value of one decimal digit byte.
pub open spec fn digit_of(b: u8) -> nat {
    if 48 <= b <= 57 {
        (b - 48) as nat
    } else {
        0
    }
}

/// `n` zero digits.
pub open spec fn zeros(n: nat) -> Seq<u8> {
    Seq::new(n, |i: int| 48u8)
}

/// `s` padded on the left with zero digits to at least `width` bytes,
/// as `format!("{:0width$}", ..)` pads an unsigned integer.
pub open spec fn zero_pad(s: Seq<u8>, width: nat) -> Seq<u8> {
    if s.len() < width {
        zeros((width - s.len()) as nat) + s
    } else {
        s
    }
}

/// The decimal text holds at least one digit, and only digits.
pub proof fn lemma_decimal_digits(n: nat)
    ensures
        decimal(n).len() >= 1,
        forall|i: int| 0 <= i < decimal(n).len() ==> 48 <= #[trigger] decimal(n)[i] <= 57,
    decreases n,
{
    if n >= 10 {
        lemma_decimal_digits(n / 10);
    }
}

/// Reading back the decimal text of `n` gives `n`.
pub proof fn lemma_decimal_value(n: nat)
    ensures
        digits_value(decimal(n)) == n,
    decreases n,
{
    if n < 10 {
        let s = decimal(n);
        assert(s.drop_last() == Seq::<u8>::empty());
        assert(s.last() == digit_byte(n));
        assert(digit_of(digit_byte(n)) == n);
        assert(digits_value(s) == digits_value(s.drop_last()) * 10 + digit_of(s.last()));
    } else {
        lemma_decimal_value(n / 10);
        assert(decimal(n).drop_last() == decimal(n / 10));
        let s = decimal(n);
        assert(s.last() == digit_byte(n % 10));
        assert(digit_of(digit_byte(n % 10)) == n % 10);
        assert(digits_value(s) == digits_value(s.drop_last()) * 10 + digit_of(s.last()));
        assert(n == (n / 10) * 10 + n % 10) by (nonlinear_arith);
    }
}

/// Leading zero digits do not change the value of a digit run.
pub proof fn lemma_leading_zeros_value(k: nat, s: Seq<u8>)
    ensures
        digits_value(zeros(k) + s) == digits_value(s),
    decreases s.len(), k,
{
    if s.len() == 0 {
        assert(zeros(k) + s == zeros(k));
        if k > 0 {
            assert(zeros(k).drop_last() == zeros((k - 1) as nat));
            lemma_leading_zeros_value((k - 1) as nat, s);
            assert(zeros((k - 1) as nat) + s == zeros((k - 1) as nat));
        }
    } else {
        assert((zeros(k) + s).drop_last() == zeros(k) + s.drop_last());
        lemma_leading_zeros_value(k, s.drop_last());
    }
}

/// Zero-padded decimal text determines the number it was written from.
pub proof fn lemma_padded_decimal_injective(a: nat, b: nat, width: nat)
    requires
        zero_pad(decimal(a), width) == zero_pad(decimal(b), width),
    ensures
        a == b,
{
    lemma_decimal_value(a);
    lemma_decimal_value(b);
    if decimal(a).len() < width {
        lemma_leading_zeros_value((width - decimal(a).len()) as nat, decimal(a));
    }
    if decimal(b).len() < width {
        lemma_leading_zeros_value((width - decimal(b).len()) as nat, decimal(b));
    }
}

/// Appends the decimal text of `n`, padded with zeros to at least `width`
/// bytes, to `buf`.
pub fn push_padded_decimal(buf: &mut Vec<u8>, n: u64, width: usize)
    ensures
        final(buf)@ == old(buf)@ + zero_pad(decimal(n as nat), width as nat),
{
    let mut digits: Vec<u8> = Vec::new();
    push_decimal(&mut digits, n);
    let ghost start = buf@;
    if digits.len() < width {
        let pad: usize = width - digits.len();
        let mut i: usize = 0;
        while i < pad
            invariant
                i <= pad,
                buf@ == start + zeros(i as nat),
            decreases pad - i,
        {
            buf.push(48u8);
            i = i + 1;
            proof {
                assert(zeros(i as nat) == zeros((i - 1) as nat).push(48u8));
            }
        }
    }
    let ghost mid = buf@;
    crate::bytes::push_bytes(buf, digits.as_slice());
    proof {
        if digits@.len() < width {
            assert(buf@ == start + (zeros((width - digits@.len()) as nat) + digits@));
        }
    }
}

/// The lowercase hexadecimal alphabet `0123456789abcdef`, digit `d` at index `d`.
pub open spec fn hex_alphabet() -> Seq<u8> {
    seq![48u8, 49u8, 50u8, 51u8, 52u8, 53u8, 54u8, 55u8, 56u8, 57u8, 97u8, 98u8, 99u8, 100u8, 101u8, 102u8]
}

/// Lowercase hexadecimal digit for a value below 16.
pub open spec fn hex_digit(d: nat) -> u8 {
    if d < 10 {
        (d + 48) as u8
    } else {
        (d + 87) as u8
    }
}

/// Two lowercase hexadecimal digits per byte, high nibble first, as
/// `format!("{:x}", ..)` writes a byte array.
pub open spec fn hex_lower(s: Seq<u8>) -> Seq<u8>
    decreases s.len(),
{
    if s.len() == 0 {
        Seq::empty()
    } else {
        hex_lower(s.drop_last()) + seq![hex_digit((s.last() / 16) as nat), hex_digit((s.last() % 16) as nat)]
    }
}

/// The hexadecimal text has two digits per byte, each from `0-9a-f`.
pub proof fn lemma_hex_lower_shape(s: Seq<u8>)
    ensures
        hex_lower(s).len() == 2 * s.len(),
        forall|i: int| 0 <= i < hex_lower(s).len() ==> {
            let c = #[trigger] hex_lower(s)[i];
            (48 <= c <= 57) || (97 <= c <= 102)
        },
    decreases s.len(),
{
    if s.len() > 0 {
        lemma_hex_lower_shape(s.drop_last());
    }
}

/// Each value below 16 is written as its own digit of the alphabet
/// `0123456789abcdef`, so distinct values get distinct digits.
pub proof fn lemma_hex_digit_alphabet(d: nat)
    requires
        d < 16,
    ensures
        hex_digit(d) == hex_alphabet()[d as int],
{
    let a = hex_alphabet();
    assert(a[0] == 48u8 && a[1] == 49u8 && a[2] == 50u8 && a[3] == 51u8);
    assert(a[4] == 52u8 && a[5] == 53u8 && a[6] == 54u8 && a[7] == 55u8);
    assert(a[8] == 56u8 && a[9] == 57u8 && a[10] == 97u8 && a[11] == 98u8);
    assert(a[12] == 99u8 && a[13] == 100u8 && a[14] == 101u8 && a[15] == 102u8);
}

/// Distinct values below 16 get distinct digits.
pub proof fn lemma_hex_digit_injective(a: nat, b: nat)
    requires
        a < 16,
        b < 16,
        hex_digit(a) == hex_digit(b),
    ensures
        a == b,
{
}

/// The text of byte `i` stands at indices `2i` and `2i + 1`: the digit of its
/// high nibble, then that of its low nibble, from `0123456789abcdef`.
pub proof fn lemma_hex_lower_digits(s: Seq<u8>)
    ensures
        hex_lower(s).len() == 2 * s.len(),
        forall|i: int|
            0 <= i < s.len() ==> {
                &&& #[trigger] hex_lower(s)[2 * i] == hex_alphabet()[(s[i] / 16) as int]
                &&& hex_lower(s)[2 * i + 1] == hex_alphabet()[(s[i] % 16) as int]
            },
    decreases s.len(),
{
    lemma_hex_lower_shape(s);
    if s.len() > 0 {
        let p = s.drop_last();
        lemma_hex_lower_digits(p);
        lemma_hex_lower_shape(p);
        let last = s.last();
        lemma_hex_digit_alphabet((last / 16) as nat);
        lemma_hex_digit_alphabet((last % 16) as nat);
        assert forall|i: int| 0 <= i < s.len() implies {
            &&& #[trigger] hex_lower(s)[2 * i] == hex_alphabet()[(s[i] / 16) as int]
            &&& hex_lower(s)[2 * i + 1] == hex_alphabet()[(s[i] % 16) as int]
        } by {
            if i < p.len() {
                assert(s[i] == p[i]);
                assert(hex_lower(s)[2 * i] == hex_lower(p)[2 * i]);
                assert(hex_lower(s)[2 * i + 1] == hex_lower(p)[2 * i + 1]);
            }
        }
    }
}

/// Appends the lowercase hexadecimal text of `data` to `buf`: two digits of
/// `0123456789abcdef` per byte, high nibble first.
pub fn push_hex_lower(buf: &mut Vec<u8>, data: &[u8])
    ensures
        final(buf)@ == old(buf)@ + hex_lower(data@),
        final(buf)@.len() == old(buf)@.len() + 2 * data@.len(),
        forall|i: int|
            0 <= i < data@.len() ==> {
                &&& final(buf)@[old(buf)@.len() + 2 * i] == hex_alphabet()[(data@[i] / 16) as int]
                &&& final(buf)@[old(buf)@.len() + 2 * i + 1] == hex_alphabet()[(#[trigger] data@[i]
                    % 16) as int]
            },
{
    let ghost start = buf@;
    let mut i: usize = 0;
    while i < data.len()
        invariant
            0 <= i <= data@.len(),
            buf@ == start + hex_lower(data@.subrange(0, i as int)),
        decreases data@.len() - i,
    {
        let b: u8 = data[i];
        let hi: u8 = b / 16;
        let lo: u8 = b % 16;
        let hc: u8 = if hi < 10 { hi + 48 } else { hi + 87 };
        let lc: u8 = if lo < 10 { lo + 48 } else { lo + 87 };
        buf.push(hc);
        buf.push(lc);
        proof {
            let pre = data@.subrange(0, i as int);
            let post = data@.subrange(0, i + 1);
            assert(post.drop_last() == pre);
            assert(post.last() == b);
        }
        i = i + 1;
    }
    proof {
        assert(data@.subrange(0, data@.len() as int) == data@);
        lemma_hex_lower_digits(data@);
        let h = hex_lower(data@);
        assert forall|i: int| 0 <= i < data@.len() implies {
            &&& buf@[start.len() + 2 * i] == hex_alphabet()[(data@[i] / 16) as int]
            &&& buf@[start.len() + 2 * i + 1] == hex_alphabet()[(#[trigger] data@[i] % 16) as int]
        } by {
            assert(buf@[start.len() + 2 * i] == h[2 * i]);
            assert(buf@[start.len() + 2 * i + 1] == h[2 * i + 1]);
        }
    }
}

} // verus!
