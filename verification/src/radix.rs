//! Positional notation of unsigned integers in bases 2 to 16, as the
//! `{:b}`, `{:o}`, `{:x}` and `{:X}` formats print them: most significant
//! digit first, no leading zeros, `0` for zero, and with the `#` flag a
//! `0b`, `0o` or `0x` prefix.
use vstd::prelude::*;
use vstd::string::StringExecFns;

verus! {

/// The character of the digit `d` (below 16); the letters are upper-case
/// when `upper` holds.
pub open spec fn digit_char(d: nat, upper: bool) -> char {
    if d < 10 {
        (d + 48) as char
    } else if upper {
        (d + 55) as char
    } else {
        (d + 87) as char
    }
}

/// The digits of `n` in base `base`, most significant first.
pub open spec fn digits(n: nat, base: nat, upper: bool) -> Seq<char>
    decreases n,
{
    if base < 2 {
        seq![]
    } else if n < base {
        seq![digit_char(n, upper)]
    } else {
        proof {
            lemma_quotient_smaller(n, base);
        }
        digits(n / base, base, upper).push(digit_char(n % base, upper))
    }
}

/// What a radix format prints: the digits, behind `prefix` when the
/// alternate form (`#`) is asked for.
pub open spec fn radix_text(
    n: nat,
    base: nat,
    upper: bool,
    alternate: bool,
    prefix: Seq<char>,
) -> Seq<char> {
    if alternate {
        prefix + digits(n, base, upper)
    } else {
        digits(n, base, upper)
    }
}

/// Dividing by a base of at least 2 makes a number no smaller than the
/// base strictly smaller.
pub proof fn lemma_quotient_smaller(n: nat, base: nat)
    requires
        2 <= base <= n,
    ensures
        n / base < n,
{
    assert(n / base < n) by (nonlinear_arith)
        requires
            2 <= base <= n,
    ;
}

/// The digits of every number are a non-empty string.
pub proof fn digits_not_empty(n: nat, base: nat, upper: bool)
    requires
        2 <= base,
    ensures
        digits(n, base, upper).len() >= 1,
    decreases n,
{
    if n >= base {
        lemma_quotient_smaller(n, base);
        digits_not_empty(n / base, base, upper);
    }
}

/// The value of a digit character in bases up to 16: `0`-`9`, then the
/// letters `a`-`f` or `A`-`F` for 10 to 15; -1 for any other character.
pub open spec fn digit_value(c: char) -> int {
    if '0' <= c && c <= '9' {
        c as int - '0' as int
    } else if 'a' <= c && c <= 'f' {
        c as int - 'a' as int + 10
    } else if 'A' <= c && c <= 'F' {
        c as int - 'A' as int + 10
    } else {
        -1
    }
}

/// The number that a string of digits in base `base` denotes, most
/// significant digit first.
pub open spec fn value_of(s: Seq<char>, base: nat) -> int
    decreases s.len(),
{
    if s.len() == 0 {
        0
    } else {
        value_of(s.drop_last(), base) * base + digit_value(s.last())
    }
}

proof fn lemma_digit_char_value(d: nat, upper: bool)
    requires
        d < 16,
    ensures
        digit_value(digit_char(d, upper)) == d,
        (upper && d >= 10) ==> 'A' <= digit_char(d, upper) <= 'F',
        (!upper && d >= 10) ==> 'a' <= digit_char(d, upper) <= 'f',
        d < 10 ==> '0' <= digit_char(d, upper) <= '9',
{
}

/// The digits of `n` are the base-`base` notation of `n`: read back they
/// give `n`; every one is a digit of the base, upper-case letters exactly
/// when `upper`; and the first is not a zero unless `n` is zero, so there
/// are no leading zeros.
pub proof fn digits_denote_the_number(n: nat, base: nat, upper: bool)
    requires
        2 <= base <= 16,
    ensures
        value_of(digits(n, base, upper), base) == n,
        forall|i: int|
            0 <= i < digits(n, base, upper).len() ==> 0 <= #[trigger] digit_value(
                digits(n, base, upper)[i],
            ) < base,
        forall|i: int|
            0 <= i < digits(n, base, upper).len() ==> {
                let c = #[trigger] digits(n, base, upper)[i];
                &&& upper ==> !('a' <= c <= 'f')
                &&& !upper ==> !('A' <= c <= 'F')
            },
        digits(n, base, upper).len() >= 1,
        n > 0 ==> digit_value(digits(n, base, upper)[0]) != 0,
    decreases n,
{
    if n < base {
        lemma_digit_char_value(n, upper);
        assert(digits(n, base, upper) == seq![digit_char(n, upper)]);
        assert(seq![digit_char(n, upper)].drop_last() =~= Seq::<char>::empty());
        assert(value_of(Seq::<char>::empty(), base) == 0);
        assert(value_of(seq![digit_char(n, upper)], base) == 0 * base + n);
    } else {
        lemma_quotient_smaller(n, base);
        let q = n / base;
        let r = n % base;
        assert(r < base) by (nonlinear_arith)
            requires
                base >= 2,
                r == n % base,
        ;
        assert(q > 0) by (nonlinear_arith)
            requires
                n >= base,
                base >= 2,
                q == n / base,
        ;
        assert(n == q * base + r) by (nonlinear_arith)
            requires
                base >= 2,
                q == n / base,
                r == n % base,
        ;
        digits_denote_the_number(q, base, upper);
        lemma_digit_char_value(r, upper);
        let ds = digits(n, base, upper);
        assert(ds == digits(q, base, upper).push(digit_char(r, upper)));
        assert(ds.drop_last() =~= digits(q, base, upper));
        assert forall|i: int| 0 <= i < ds.len() implies 0 <= #[trigger] digit_value(ds[i]) < base by {
            if i < ds.len() - 1 {
                assert(ds[i] == digits(q, base, upper)[i]);
            }
        }
        assert forall|i: int| 0 <= i < ds.len() implies {
            let c = #[trigger] ds[i];
            &&& upper ==> !('a' <= c <= 'f')
            &&& !upper ==> !('A' <= c <= 'F')
        } by {
            if i < ds.len() - 1 {
                assert(ds[i] == digits(q, base, upper)[i]);
            }
        }
        assert(ds[0] == digits(q, base, upper)[0]);
        assert(value_of(ds, base) == value_of(digits(q, base, upper), base) * base + r);
    }
}

/// The one-character string of a digit.
fn digit_str(d: u128, upper: bool) -> (s: &'static str)
    requires
        d < 16,
    ensures
        s@ == seq![digit_char(d as nat, upper)],
{
    let table = if upper {
        "0123456789ABCDEF"
    } else {
        "0123456789abcdef"
    };
    proof {
        reveal_strlit("0123456789ABCDEF");
        reveal_strlit("0123456789abcdef");
        assert(table@.len() == 16);
        assert(table.is_ascii());
    }
    let s = table.substring_ascii(d as usize, d as usize + 1);
    assert(s@ =~= seq![table@[d as int]]);
    s
}

/// Appends the digits of `n` in base `base` to `out`.
fn push_digits(n: u128, base: u128, upper: bool, out: &mut String)
    requires
        2 <= base <= 16,
    ensures
        final(out)@ == old(out)@ + digits(n as nat, base as nat, upper),
    decreases n,
{
    if n >= base {
        proof {
            lemma_quotient_smaller(n as nat, base as nat);
        }
        push_digits(n / base, base, upper, out);
    }
    out.append(digit_str(n % base, upper));
    if n < base {
        assert(n % base == n) by (nonlinear_arith)
            requires
                n < base,
        ;
    }
    assert(out@ =~= old(out)@ + digits(n as nat, base as nat, upper));
}

/// The digits of `n` in base `base` (2 to 16), most significant first.
pub fn digits_string(n: u128, base: u128, upper: bool) -> (s: String)
    requires
        2 <= base <= 16,
    ensures
        s@ == digits(n as nat, base as nat, upper),
        value_of(s@, base as nat) == n,
{
    proof {
        digits_denote_the_number(n as nat, base as nat, upper);
    }
    let mut s = String::new();
    push_digits(n, base, upper, &mut s);
    assert(s@ =~= digits(n as nat, base as nat, upper));
    s
}

/// `n` as the `{:b}` format prints it, or `{:#b}` when `alternate` holds.
pub fn binary_string(n: u128, alternate: bool) -> (s: String)
    ensures
        s@ == radix_text(n as nat, 2, false, alternate, "0b"@),
{
    with_prefix(digits_string(n, 2, false), alternate, "0b")
}

/// `n` as the `{:o}` format prints it, or `{:#o}` when `alternate` holds.
pub fn octal_string(n: u128, alternate: bool) -> (s: String)
    ensures
        s@ == radix_text(n as nat, 8, false, alternate, "0o"@),
{
    with_prefix(digits_string(n, 8, false), alternate, "0o")
}

/// `n` as the `{:x}` format prints it, or `{:#x}` when `alternate` holds.
pub fn lower_hex_string(n: u128, alternate: bool) -> (s: String)
    ensures
        s@ == radix_text(n as nat, 16, false, alternate, "0x"@),
{
    with_prefix(digits_string(n, 16, false), alternate, "0x")
}

/// `n` as the `{:X}` format prints it, or `{:#X}` when `alternate` holds.
pub fn upper_hex_string(n: u128, alternate: bool) -> (s: String)
    ensures
        s@ == radix_text(n as nat, 16, true, alternate, "0x"@),
{
    with_prefix(digits_string(n, 16, true), alternate, "0x")
}

fn with_prefix(digits: String, alternate: bool, prefix: &str) -> (s: String)
    ensures
        s@ == (if alternate {
            prefix@ + digits@
        } else {
            digits@
        }),
{
    if alternate {
        let mut s = String::from_str(prefix);
        s.append(digits.as_str());
        s
    } else {
        digits
    }
}

} // verus!
