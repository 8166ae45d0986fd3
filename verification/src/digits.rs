//! Numbers written out in decimal and in hexadecimal.

use vstd::prelude::*;

verus! {

/// The character that stands for a digit below sixteen.
pub open spec fn digit_char(d: nat) -> char {
    if d < 10 {
        ('0' as int + d) as char
    } else {
        ('a' as int + d - 10) as char
    }
}

/// A number written out in a base from 2 to 16, without leading zeros.
pub open spec fn numeral(n: nat, base: nat) -> Seq<char>
    decreases n,
{
    if base < 2 || n < base {
        seq![digit_char(n)]
    } else {
        proof {
            assert(n / base < n) by (nonlinear_arith)
                requires
                    base >= 2,
                    n >= base,
            ;
        }
        numeral(n / base, base).push(digit_char(n % base))
    }
}

/// A number written out in decimal.
pub open spec fn decimal(n: nat) -> Seq<char> {
    numeral(n, 10)
}

/// A number written out in hexadecimal, in lower case.
pub open spec fn hexadecimal(n: nat) -> Seq<char> {
    numeral(n, 16)
}

/// Different numbers are written differently.
pub proof fn numeral_injective(n: nat, m: nat, base: nat)
    requires
        2 <= base <= 16,
        numeral(n, base) == numeral(m, base),
    ensures
        n == m,
    decreases n,
{
    let s = numeral(n, base);
    let t = numeral(m, base);
    numeral_is_not_empty(n, base);
    numeral_is_not_empty(m, base);
    if n < base && m < base {
        assert(s[0] == t[0]);
        assert(digit_char(n) == digit_char(m));
        digit_char_injective(n, m);
    } else if n < base {
        numeral_is_not_empty(m / base, base);
        assert(s.len() == 1 && t.len() > 1);
    } else if m < base {
        numeral_is_not_empty(n / base, base);
        assert(s.len() > 1 && t.len() == 1);
    } else {
        assert(s.drop_last() =~= numeral(n / base, base));
        assert(t.drop_last() =~= numeral(m / base, base));
        assert(n / base < n && n % base < base && m % base < base) by (nonlinear_arith)
            requires
                base >= 2,
                n >= base,
        ;
        assert(s.last() == digit_char(n % base) && t.last() == digit_char(m % base));
        numeral_injective(n / base, m / base, base);
        digit_char_injective(n % base, m % base);
        assert(n == base * (n / base) + n % base) by (nonlinear_arith)
            requires
                base >= 2,
        ;
        assert(m == base * (m / base) + m % base) by (nonlinear_arith)
            requires
                base >= 2,
        ;
    }
}

proof fn digit_char_injective(a: nat, b: nat)
    requires
        a < 16,
        b < 16,
        digit_char(a) == digit_char(b),
    ensures
        a == b,
{
}

proof fn numeral_is_not_empty(n: nat, base: nat)
    ensures
        numeral(n, base).len() > 0,
{
}

/// The characters of a numeral are digits.
pub proof fn numeral_chars(n: nat, base: nat, i: int)
    requires
        2 <= base <= 16,
        0 <= i < numeral(n, base).len(),
    ensures
        exists|d: nat| d < base && numeral(n, base)[i] == #[trigger] digit_char(d),
    decreases n,
{
    if n < base {
        assert(numeral(n, base)[i] == digit_char(n));
    } else {
        assert(n / base < n && n % base < base) by (nonlinear_arith)
            requires
                base >= 2,
                n >= base,
        ;
        if i < numeral(n, base).len() - 1 {
            numeral_chars(n / base, base, i);
            let d = choose|d: nat| d < base && numeral(n / base, base)[i] == #[trigger] digit_char(d);
            assert(numeral(n, base)[i] == digit_char(d));
        } else {
            assert(numeral(n, base)[i] == digit_char(n % base));
        }
    }
}

fn digit(d: u8) -> (r: char)
    requires
        d < 16,
    ensures
        r == digit_char(d as nat),
{
    match d {
        0 => '0',
        1 => '1',
        2 => '2',
        3 => '3',
        4 => '4',
        5 => '5',
        6 => '6',
        7 => '7',
        8 => '8',
        9 => '9',
        10 => 'a',
        11 => 'b',
        12 => 'c',
        13 => 'd',
        14 => 'e',
        _ => 'f',
    }
}

/// Writes a number out in a base from 2 to 16.
pub fn to_numeral(n: u128, base: u8) -> (r: String)
    requires
        2 <= base <= 16,
    ensures
        r@ == numeral(n as nat, base as nat),
    decreases n,
{
    let wide: u128 = base as u128;
    if n < wide {
        let mut out = String::new();
        out.push(digit(n as u8));
        assert(out@ =~= numeral(n as nat, base as nat));
        out
    } else {
        assert(n / wide < n && n % wide < wide) by (nonlinear_arith)
            requires
                wide >= 2,
                n >= wide,
        ;
        let mut out = to_numeral(n / wide, base);
        out.push(digit((n % wide) as u8));
        out
    }
}

/// The number that a numeral denotes: each character counts for its digit, and
/// what stands before it for so many times as much as the base says.
pub open spec fn denoted(s: Seq<char>, base: nat) -> nat
    decreases s.len(),
{
    if s.len() == 0 {
        0
    } else {
        let c = s.last() as int;
        let digit = if '0' as int <= c <= '9' as int {
            c - '0' as int
        } else {
            c - 'a' as int + 10
        };
        (denoted(s.drop_last(), base) * base + digit) as nat
    }
}

/// A numeral denotes the number that it was written for, in ten digits and the
/// lower case letters from `a` on, and has no leading zero but that of zero
/// itself.
pub proof fn numeral_denotes_its_number(n: nat, base: nat)
    requires
        2 <= base <= 16,
    ensures
        denoted(numeral(n, base), base) == n,
        numeral(n, base).len() > 0,
        n > 0 ==> numeral(n, base)[0] != '0',
        forall|i: int|
            0 <= i < numeral(n, base).len() ==> '0' <= #[trigger] numeral(n, base)[i] <= '9'
                || 'a' <= numeral(n, base)[i] <= 'f',
        base == 10 ==> forall|i: int|
            0 <= i < numeral(n, base).len() ==> '0' <= #[trigger] numeral(n, base)[i] <= '9',
    decreases n,
{
    let s = numeral(n, base);
    if n < base {
        assert(s.drop_last() =~= Seq::<char>::empty());
        assert(denoted(s.drop_last(), base) == 0);
        assert(0 * base == 0);
    } else {
        assert(n / base < n && n % base < base && n / base >= 1) by (nonlinear_arith)
            requires
                base >= 2,
                n >= base,
        ;
        assert(n == (n / base) * base + n % base) by (nonlinear_arith)
            requires
                base >= 2,
        ;
        numeral_denotes_its_number(n / base, base);
        let front = numeral(n / base, base);
        assert(s.drop_last() =~= front);
        assert(s[0] == front[0]);
        assert forall|i: int| 0 <= i < s.len() implies ('0' <= #[trigger] s[i] <= '9' || 'a' <= s[i]
            <= 'f') && (base == 10 ==> '0' <= s[i] <= '9') by {
            if i < front.len() {
                assert(s[i] == front[i]);
            }
        }
    }
}

/// Decimal and hexadecimal are written in base ten and sixteen.
pub proof fn bases_are_ten_and_sixteen(n: nat)
    ensures
        denoted(decimal(n), 10) == n,
        denoted(hexadecimal(n), 16) == n,
        n < 10 ==> decimal(n).len() == 1,
        n >= 10 ==> decimal(n).len() > 1,
        n < 16 ==> hexadecimal(n).len() == 1,
        n >= 16 ==> hexadecimal(n).len() > 1,
{
    numeral_denotes_its_number(n, 10);
    numeral_denotes_its_number(n, 16);
    numeral_is_not_empty(n / 10, 10);
    numeral_is_not_empty(n / 16, 16);
}

} // verus!
