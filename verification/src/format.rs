//! Decimal and hexadecimal rendering of integers, as `format!` writes them.

use vstd::prelude::*;

verus! {

/// The character of a decimal or hexadecimal digit (upper-case letters).
pub open spec fn digit_char(d: nat) -> char {
    if d < 10 {
        (48 + d) as char
    } else {
        (55 + d) as char
    }
}

/// Decimal digits of `n`, without leading zeros (`"0"` for zero).
pub open spec fn dec_digits(n: nat) -> Seq<char>
    decreases n,
{
    if n < 10 {
        seq![digit_char(n)]
    } else {
        dec_digits(n / 10).push(digit_char(n % 10))
    }
}

/// The decimal digits of `n` are digits, and read back they give `n`.
pub proof fn lemma_dec_digits_round_trip(n: nat)
    ensures
        crate::text::all_digits(dec_digits(n)),
        crate::text::digits_value(dec_digits(n)) == n,
        dec_digits(n).len() >= 1,
    decreases n,
{
    if n >= 10 {
        lemma_dec_digits_round_trip(n / 10);
        let p = dec_digits(n / 10);
        let s = p.push(digit_char(n % 10));
        assert(s.drop_last() =~= p);
        assert forall|i: int| 0 <= i < s.len() implies crate::text::is_digit(#[trigger] s[i]) by {
            if i < p.len() {
                assert(s[i] == p[i]);
            }
        }
        assert((digit_char(n % 10) as u32) == 48 + n % 10);
        assert(s.last() == digit_char(n % 10));
        assert(crate::text::digits_value(s) == crate::text::digits_value(p) * 10 + (n % 10));
        assert(n == (n / 10) * 10 + n % 10);
    } else {
        assert((digit_char(n) as u32) == 48 + n);
        let s = seq![digit_char(n)];
        assert(s.drop_last() =~= Seq::<char>::empty());
        assert(crate::text::digits_value(Seq::<char>::empty()) == 0);
        assert(s.last() == digit_char(n));
        assert(crate::text::digits_value(s) == crate::text::digits_value(s.drop_last()) * 10 + n);
    }
}

/// The two characters of a byte in hexadecimal give the byte back: its high then its
/// low nibble, as digits `0`-`9` or letters `A`-`F`.
pub proof fn lemma_hex2_digits(b: u8)
    ensures
        hex2(b).len() == 2,
        hex2(b)[0] == digit_char((b / 16) as nat),
        hex2(b)[1] == digit_char((b % 16) as nat),
        forall|d: nat| #![trigger digit_char(d)] d < 16 ==> (if d < 10 { digit_char(d) as u32 == 48 + d } else { digit_char(d) as u32 == 55 + d }),
{
}

/// `s` left-padded with `c` up to `width` characters.
pub open spec fn pad_left(s: Seq<char>, width: nat, c: char) -> Seq<char> {
    if s.len() >= width {
        s
    } else {
        Seq::new((width - s.len()) as nat, |i: int| c) + s
    }
}

/// What `format!("{:0w$}", v)` writes: the sign, then the digits padded with zeros so
/// that the whole is at least `w` characters long.
pub open spec fn fmt_int(v: int, width: nat) -> Seq<char> {
    if v < 0 {
        seq!['-'] + pad_left(dec_digits((-v) as nat), if width > 0 { (width - 1) as nat } else { 0 }, '0')
    } else {
        pad_left(dec_digits(v as nat), width, '0')
    }
}

/// What `format!("{:02X}", b)` writes.
pub open spec fn hex2(b: u8) -> Seq<char> {
    seq![digit_char((b / 16) as nat), digit_char((b % 16) as nat)]
}

/// The text of one digit.
pub fn digit_str(d: u64) -> (r: &'static str)
    requires
        d < 16,
    ensures
        r@ == seq![digit_char(d as nat)],
{
    proof {
        reveal_strlit("0");
        reveal_strlit("1");
        reveal_strlit("2");
        reveal_strlit("3");
        reveal_strlit("4");
        reveal_strlit("5");
        reveal_strlit("6");
        reveal_strlit("7");
        reveal_strlit("8");
        reveal_strlit("9");
        reveal_strlit("A");
        reveal_strlit("B");
        reveal_strlit("C");
        reveal_strlit("D");
        reveal_strlit("E");
        reveal_strlit("F");
    }
    match d {
        0 => "0",
        1 => "1",
        2 => "2",
        3 => "3",
        4 => "4",
        5 => "5",
        6 => "6",
        7 => "7",
        8 => "8",
        9 => "9",
        10 => "A",
        11 => "B",
        12 => "C",
        13 => "D",
        14 => "E",
        _ => "F",
    }
}

/// Appends the decimal digits of `n`.
pub fn push_decimal(out: &mut String, n: u64)
    ensures
        final(out)@ == old(out)@ + dec_digits(n as nat),
    decreases n,
{
    if n >= 10 {
        push_decimal(out, n / 10);
        out.append(digit_str(n % 10));
        assert(old(out)@ + dec_digits((n / 10) as nat) + seq![digit_char((n % 10) as nat)] =~= old(out)@
            + dec_digits(n as nat));
    } else {
        out.append(digit_str(n));
    }
}

/// Appends `count` copies of `0`.
pub fn push_zeros(out: &mut String, count: usize)
    ensures
        final(out)@ == old(out)@ + Seq::new(count as nat, |i: int| '0'),
{
    let mut k: usize = 0;
    proof {
        reveal_strlit("0");
    }
    while k < count
        invariant
            k <= count,
            out@ == old(out)@ + Seq::new(k as nat, |i: int| '0'),
        decreases count - k,
    {
        out.append("0");
        proof {
            reveal_strlit("0");
        }
        assert(old(out)@ + Seq::new(k as nat, |i: int| '0') + "0"@ =~= old(out)@ + Seq::new(
            (k + 1) as nat,
            |i: int| '0',
        ));
        k = k + 1;
    }
}

/// The decimal digits of `n`.
pub fn decimal(n: u64) -> (r: String)
    ensures
        r@ == dec_digits(n as nat),
{
    let mut s = String::new();
    push_decimal(&mut s, n);
    assert(Seq::<char>::empty() + dec_digits(n as nat) =~= dec_digits(n as nat));
    s
}

/// `format!("{:0w$}", v)`.
pub fn format_int(v: i64, width: usize) -> (r: String)
    ensures
        r@ == fmt_int(v as int, width as nat),
{
    let negative = v < 0;
    let magnitude: u64 = if negative { (-(v as i128)) as u64 } else { v as u64 };
    let digits = decimal(magnitude);
    let len = digits.as_str().unicode_len();
    let target = if negative {
        if width > 0 { width - 1 } else { 0 }
    } else {
        width
    };
    let mut out = String::new();
    if negative {
        proof {
            reveal_strlit("-");
        }
        out.append("-");
    }
    let ghost prefix = out@;
    if len < target {
        push_zeros(&mut out, target - len);
    } else {
        assert(out@ + Seq::new(0, |i: int| '0') =~= out@);
    }
    let ghost zeros = Seq::new(if len < target { (target - len) as nat } else { 0 }, |i: int| '0');
    out.append(digits.as_str());
    proof {
        if len < target {
            assert(pad_left(dec_digits(magnitude as nat), target as nat, '0') =~= zeros + dec_digits(
                magnitude as nat,
            ));
        }
        if negative {
            assert(prefix =~= seq!['-']);
            assert((-(v as int)) as nat == magnitude as nat);
        } else {
            assert(prefix =~= Seq::<char>::empty());
        }
        assert(out@ =~= prefix + zeros + dec_digits(magnitude as nat));
    }
    out
}

/// `format!("{:02X}", b)`.
pub fn format_hex2(b: u8) -> (r: String)
    ensures
        r@ == hex2(b),
{
    let mut s = String::new();
    s.append(digit_str((b / 16) as u64));
    s.append(digit_str((b % 16) as u64));
    assert(s@ =~= hex2(b));
    s
}

} // verus!
