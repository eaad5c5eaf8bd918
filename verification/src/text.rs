//! Decimal text: the zero-padded numbers that period keys are made of.
use vstd::prelude::*;
use vstd::string::*;

verus! {

/// The character of a single decimal digit.
pub open spec fn digit_char(d: int) -> char {
    (48 + d) as char
}

/// The decimal digits of `n`, most significant first, without leading zeros.
pub open spec fn decimal(n: nat) -> Seq<char>
    decreases n,
{
    if n < 10 {
        seq![digit_char(n as int)]
    } else {
        decimal(n / 10).push(digit_char((n % 10) as int))
    }
}

/// `digits` preceded by as many zeros as it takes to reach `width` characters.
pub open spec fn zero_filled(digits: Seq<char>, width: int) -> Seq<char> {
    if digits.len() >= width {
        digits
    } else {
        Seq::new((width - digits.len()) as nat, |i: int| '0') + digits
    }
}

/// `n` written with at least `width` characters; a minus sign counts as one of
/// them and stands before the zeros.
pub open spec fn padded(n: int, width: int) -> Seq<char> {
    if n >= 0 {
        zero_filled(decimal(n as nat), width)
    } else {
        seq!['-'] + zero_filled(decimal((-n) as nat), width - 1)
    }
}

fn digit_text(d: u32) -> (text: &'static str)
    requires
        d < 10,
    ensures
        text@ == seq![digit_char(d as int)],
{
    proof {
        reveal_strlit("0");
        reveal_strlit("1");
        reveal_strlit("2");
        reveal_strlit("3");
        reveal_strlit("4");
        reveal_strlit("5");
        reveal_strlit("6");
        reveal_strlit("7");
        reveal_strlit("8");
        reveal_strlit("9");
    }
    match d {
        0 => "0",
        1 => "1",
        2 => "2",
        3 => "3",
        4 => "4",
        5 => "5",
        6 => "6",
        7 => "7",
        8 => "8",
        _ => "9",
    }
}

fn push_decimal(out: &mut String, n: u32)
    ensures
        final(out)@ == old(out)@ + decimal(n as nat),
    decreases n,
{
    if n >= 10 {
        push_decimal(out, n / 10);
    }
    out.append(digit_text(n % 10));
}

fn push_zero_filled(out: &mut String, n: u32, width: usize)
    ensures
        final(out)@ == old(out)@ + zero_filled(decimal(n as nat), width as int),
{
    let ghost before = out@;
    let mut digits: String = String::new();
    push_decimal(&mut digits, n);
    assert(digits@ =~= decimal(n as nat));
    let mut filled: usize = digits.as_str().unicode_len();
    proof {
        reveal_strlit("0");
    }
    while filled < width
        invariant
            digits@.len() <= filled,
            digits@.len() < filled ==> filled <= width,
            out@ == before + Seq::new((filled - digits@.len()) as nat, |i: int| '0'),
            "0"@ == seq!['0'],
        decreases width - filled,
    {
        out.append("0");
        filled = filled + 1;
    }
    out.append(digits.as_str());
}

/// Appends `n` in decimal, filled up with leading zeros to `width` characters.
pub fn push_padded(out: &mut String, n: i32, width: usize)
    requires
        width > 0,
    ensures
        final(out)@ == old(out)@ + padded(n as int, width as int),
{
    if n >= 0 {
        push_zero_filled(out, n as u32, width);
    } else {
        proof {
            reveal_strlit("-");
        }
        out.append("-");
        let magnitude: u32 = (-(n as i64)) as u32;
        push_zero_filled(out, magnitude, width - 1);
    }
}

/// The number that a string of decimal digits stands for.
pub open spec fn value(s: Seq<char>) -> int
    decreases s.len(),
{
    if s.len() == 0 {
        0
    } else {
        10 * value(s.drop_last()) + (s.last() as int - 48)
    }
}

proof fn lemma_decimal_value(n: nat)
    ensures
        value(decimal(n)) == n,
        decimal(n).len() >= 1,
        forall|i: int| 0 <= i < decimal(n).len() ==> '0' <= #[trigger] decimal(n)[i] <= '9',
        n > 0 ==> decimal(n)[0] != '0',
    decreases n,
{
    reveal_with_fuel(value, 2);
    if n >= 10 {
        lemma_decimal_value(n / 10);
        assert(decimal(n).drop_last() =~= decimal(n / 10));
    } else {
        assert(decimal(n).drop_last() =~= Seq::<char>::empty());
    }
}

proof fn lemma_leading_zeros(zeros: nat, digits: Seq<char>)
    ensures
        value(Seq::new(zeros, |i: int| '0') + digits) == value(digits),
    decreases zeros + digits.len(),
{
    let s = Seq::new(zeros, |i: int| '0') + digits;
    if digits.len() > 0 {
        lemma_leading_zeros(zeros, digits.drop_last());
        assert(s.drop_last() =~= Seq::new(zeros, |i: int| '0') + digits.drop_last());
    } else if zeros > 0 {
        lemma_leading_zeros((zeros - 1) as nat, digits);
        assert(s.drop_last() =~= Seq::new((zeros - 1) as nat, |i: int| '0') + digits);
    } else {
        assert(s =~= digits);
    }
}

proof fn lemma_zero_filled(n: nat, width: int)
    ensures
        value(zero_filled(decimal(n), width)) == n,
        zero_filled(decimal(n), width).len() >= 1,
        zero_filled(decimal(n), width)[0] != '-',
{
    lemma_decimal_value(n);
    let digits = decimal(n);
    if digits.len() < width {
        lemma_leading_zeros((width - digits.len()) as nat, digits);
    } else {
        assert(decimal(n)[0] != '-');
    }
}

/// Padded text reads as its number: after a minus sign, where there is one,
/// come digits only, and they stand for the number. Zeros stand before it only
/// as far as the width asks for them.
pub proof fn law_padded_reads_as_its_number(n: int, width: int)
    requires
        width >= 1,
    ensures
        ({
            let s = padded(n, width);
            let digits = if n < 0 {
                s.skip(1)
            } else {
                s
            };
            &&& n < 0 ==> s[0] == '-'
            &&& digits.len() >= 1
            &&& forall|i: int| 0 <= i < digits.len() ==> '0' <= #[trigger] digits[i] <= '9'
            &&& value(digits) == if n < 0 {
                -n
            } else {
                n
            }
            &&& s.len() >= width
            &&& s.len() > width ==> digits[0] != '0'
        }),
{
    let s = padded(n, width);
    if n >= 0 {
        lemma_zero_filled(n as nat, width);
        lemma_decimal_value(n as nat);
        if n == 0 {
            assert(decimal(0).len() == 1);
        }
    } else {
        lemma_zero_filled((-n) as nat, width - 1);
        lemma_decimal_value((-n) as nat);
        assert(s.skip(1) =~= zero_filled(decimal((-n) as nat), width - 1));
    }
}

/// Padded text determines its number.
pub proof fn lemma_padded_injective(a: int, b: int, width: int)
    requires
        padded(a, width) == padded(b, width),
    ensures
        a == b,
{
    if a >= 0 {
        lemma_zero_filled(a as nat, width);
    } else {
        lemma_zero_filled((-a) as nat, width - 1);
        assert(padded(a, width).skip(1) =~= zero_filled(decimal((-a) as nat), width - 1));
        assert(padded(a, width)[0] == '-');
    }
    if b >= 0 {
        lemma_zero_filled(b as nat, width);
    } else {
        lemma_zero_filled((-b) as nat, width - 1);
        assert(padded(b, width).skip(1) =~= zero_filled(decimal((-b) as nat), width - 1));
        assert(padded(b, width)[0] == '-');
    }
}

/// Numbers below one hundred take exactly two characters.
pub proof fn lemma_two_digits(n: int)
    requires
        0 <= n < 100,
    ensures
        padded(n, 2).len() == 2,
{
    reveal_with_fuel(decimal, 2);
}

/// Numbers below one hundred are written with their two digits.
pub proof fn law_two_digits(n: int)
    requires
        0 <= n < 100,
    ensures
        padded(n, 2) == seq![(48 + n / 10) as char, (48 + n % 10) as char],
{
    reveal_with_fuel(decimal, 2);
    lemma_two_digits(n);
    assert(padded(n, 2) =~= seq![(48 + n / 10) as char, (48 + n % 10) as char]);
}

/// Two texts that end in parts of one length agree exactly when both parts do.
pub proof fn lemma_split(a: Seq<char>, x: Seq<char>, b: Seq<char>, y: Seq<char>)
    requires
        x.len() == y.len(),
    ensures
        (a + x == b + y) <==> (a == b && x == y),
{
    if a + x == b + y {
        assert((a + x).len() == (b + y).len());
        assert(a =~= (a + x).take(a.len() as int));
        assert(b =~= (b + y).take(b.len() as int));
        assert(x =~= (a + x).skip(a.len() as int));
        assert(y =~= (b + y).skip(b.len() as int));
    }
}

} // verus!
