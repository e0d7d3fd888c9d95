//! Verified rendering of integers as decimal and hexadecimal text.  The
//! disassembler and the literal-array renderer build their output lines from
//! these pieces, so each function pins its result down to the exact
//! character sequence.

use vstd::prelude::*;
use vstd::string::StringExecFns;

verus! {

/// The character for one digit value, decimal or uppercase hexadecimal.
pub open spec fn digit_char(d: nat) -> char {
    if d == 0 {
        '0'
    } else if d == 1 {
        '1'
    } else if d == 2 {
        '2'
    } else if d == 3 {
        '3'
    } else if d == 4 {
        '4'
    } else if d == 5 {
        '5'
    } else if d == 6 {
        '6'
    } else if d == 7 {
        '7'
    } else if d == 8 {
        '8'
    } else if d == 9 {
        '9'
    } else if d == 10 {
        'A'
    } else if d == 11 {
        'B'
    } else if d == 12 {
        'C'
    } else if d == 13 {
        'D'
    } else if d == 14 {
        'E'
    } else {
        'F'
    }
}

/// The decimal rendering of a value, most significant digit first, no
/// leading zeroes.
pub open spec fn dec_str(v: nat) -> Seq<char>
    decreases v,
{
    if v < 10 {
        seq![digit_char(v)]
    } else {
        dec_str(v / 10).push(digit_char(v % 10))
    }
}

/// The uppercase hexadecimal rendering of a value, most significant digit
/// first, no leading zeroes.
pub open spec fn hex_str(v: nat) -> Seq<char>
    decreases v,
{
    if v < 16 {
        seq![digit_char(v)]
    } else {
        hex_str(v / 16).push(digit_char(v % 16))
    }
}

/// `s` left-padded with `c` up to width `w`.
pub open spec fn pad_left(s: Seq<char>, c: char, w: nat) -> Seq<char> {
    if s.len() >= w {
        s
    } else {
        Seq::new((w - s.len()) as nat, |i: int| c) + s
    }
}

/// One digit as a string slice.
pub fn digit_text(d: u8) -> (r: &'static str)
    requires
        d < 16,
    ensures
        r@ == seq![digit_char(d as nat)],
{
    proof {
        reveal_strlit("0");
        reveal_strlit("1");
        reveal_strlit("2");
        reveal_strlit("3");
        reveal_strlit("4");
        reveal_strlit("5");
        reveal_strlit("6");
        reveal_strlit("7");
        reveal_strlit("8");
        reveal_strlit("9");
        reveal_strlit("A");
        reveal_strlit("B");
        reveal_strlit("C");
        reveal_strlit("D");
        reveal_strlit("E");
        reveal_strlit("F");
    }
    let r = match d {
        0 => "0",
        1 => "1",
        2 => "2",
        3 => "3",
        4 => "4",
        5 => "5",
        6 => "6",
        7 => "7",
        8 => "8",
        9 => "9",
        10 => "A",
        11 => "B",
        12 => "C",
        13 => "D",
        14 => "E",
        _ => "F",
    };
    assert(r@ =~= seq![digit_char(d as nat)]);
    r
}

/// The decimal text of a value.
pub fn dec_u64(v: u64) -> (r: String)
    ensures
        r@ == dec_str(v as nat),
    decreases v,
{
    if v < 10 {
        let d = digit_text(v as u8);
        let r = String::from_str(d);
        assert(r@ =~= dec_str(v as nat));
        r
    } else {
        let mut s = dec_u64(v / 10);
        let d = digit_text((v % 10) as u8);
        s.append(d);
        assert(s@ =~= dec_str(v as nat));
        s
    }
}

/// The uppercase hexadecimal text of a value, without leading zeroes.
pub fn hex_u64(v: u64) -> (r: String)
    ensures
        r@ == hex_str(v as nat),
    decreases v,
{
    if v < 16 {
        let d = digit_text(v as u8);
        let r = String::from_str(d);
        assert(r@ =~= hex_str(v as nat));
        r
    } else {
        let mut s = hex_u64(v / 16);
        let d = digit_text((v % 16) as u8);
        s.append(d);
        assert(s@ =~= hex_str(v as nat));
        s
    }
}

/// A string of `n` copies of one fill character (`'0'` or `' '`).
pub fn fill_text(n: usize, zero: bool) -> (r: String)
    ensures
        r@ == Seq::new(n as nat, |i: int| if zero {
            '0'
        } else {
            ' '
        }),
{
    proof {
        reveal_strlit("0");
        reveal_strlit(" ");
    }
    let mut s = String::new();
    let mut k: usize = 0;
    while k < n
        invariant
            0 <= k <= n,
            s@ == Seq::new(k as nat, |i: int| if zero {
                '0'
            } else {
                ' '
            }),
        decreases n - k,
    {
        proof {
            reveal_strlit("0");
            reveal_strlit(" ");
        }
        if zero {
            s.append("0");
        } else {
            s.append(" ");
        }
        k = k + 1;
        assert(s@ =~= Seq::new(k as nat, |i: int| if zero {
            '0'
        } else {
            ' '
        }));
    }
    s
}

/// 16^n.
pub open spec fn pow16(n: nat) -> nat
    decreases n,
{
    if n == 0 {
        1
    } else {
        16 * pow16((n - 1) as nat)
    }
}

proof fn lemma_hex_len_le(v: nat, k: nat)
    requires
        v < pow16(k),
        k >= 1,
    ensures
        hex_str(v).len() <= k,
    decreases v,
{
    if v >= 16 {
        assert(pow16(k) == 16 * pow16((k - 1) as nat));
        lemma_hex_len_le(v / 16, (k - 1) as nat);
    }
}

proof fn lemma_hex_len_bound(v: nat)
    requires
        v < 0x1_0000_0000_0000_0000,
    ensures
        1 <= hex_str(v).len() <= 16,
{
    assert(pow16(16) == 0x1_0000_0000_0000_0000) by {
        reveal_with_fuel(pow16, 17);
    };
    lemma_hex_len_le(v, 16);
}

/// The number of hexadecimal digits of a value.
pub fn hex_len(v: u64) -> (n: usize)
    ensures
        n == hex_str(v as nat).len(),
        1 <= n <= 16,
{
    proof {
        lemma_hex_len_bound(v as nat);
    }
    let mut n: usize = 1;
    let mut x = v;
    while x >= 16
        invariant
            1 <= n,
            hex_str(v as nat).len() == n - 1 + hex_str(x as nat).len(),
            hex_str(v as nat).len() <= 16,
        decreases x,
    {
        proof {
            lemma_hex_len_bound((x / 16) as nat);
            assert(hex_str(x as nat) == hex_str((x as nat) / 16).push(
                digit_char((x as nat) % 16),
            ));
        }
        x = x / 16;
        n = n + 1;
    }
    assert(hex_str(x as nat).len() == 1);
    n
}

/// The hexadecimal text of a value, left-padded to `width` with zeroes or
/// spaces.
pub fn hex_pad(v: u64, width: usize, zero: bool) -> (r: String)
    ensures
        r@ == pad_left(hex_str(v as nat), if zero {
            '0'
        } else {
            ' '
        }, width as nat),
{
    let n = hex_len(v);
    let digits = hex_u64(v);
    if n >= width {
        assert(digits@ =~= pad_left(hex_str(v as nat), if zero {
            '0'
        } else {
            ' '
        }, width as nat));
        digits
    } else {
        let mut s = fill_text(width - n, zero);
        s.append(digits.as_str());
        assert(s@ =~= pad_left(hex_str(v as nat), if zero {
            '0'
        } else {
            ' '
        }, width as nat));
        s
    }
}

} // verus!
