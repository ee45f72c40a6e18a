use vstd::prelude::*;

verus! {

/// The character of decimal digit `d`.
pub open spec fn digit_char(d: nat) -> char {
    (48 + d) as char
}

/// The decimal representation of `n`, without leading zeros.
pub open spec fn decimal_digits(n: nat) -> Seq<char>
    decreases n,
{
    if n < 10 {
        seq![digit_char(n)]
    } else {
        decimal_digits(n / 10).push(digit_char(n % 10))
    }
}

/// The decimal representation of `n` made exactly `length` characters long:
/// cut after `length` characters when longer, padded with leading zeros
/// when shorter.
pub open spec fn exact_length_decimal(n: nat, length: nat) -> Seq<char> {
    let d = decimal_digits(n);
    if d.len() > length {
        d.take(length as int)
    } else {
        Seq::new((length - d.len()) as nat, |i: int| '0') + d
    }
}

/// The number that a string of decimal digit characters stands for, read
/// from the most significant digit.
pub open spec fn digits_value(s: Seq<char>) -> int
    decreases s.len(),
{
    if s.len() == 0 {
        0
    } else {
        digits_value(s.drop_last()) * 10 + (s.last() as int - 48)
    }
}

/// The decimal representation of `n` is a non-empty string of the
/// characters `0` to `9`, starting with `0` only for `n == 0`, that reads
/// back as `n`.
pub proof fn lemma_decimal_digits_read_back(n: nat)
    ensures
        decimal_digits(n).len() >= 1,
        forall|i: int|
            0 <= i < decimal_digits(n).len() ==> 48 <= #[trigger] (decimal_digits(n)[i] as int)
                <= 57,
        n != 0 ==> decimal_digits(n)[0] != '0',
        digits_value(decimal_digits(n)) == n,
    decreases n,
{
    let d = decimal_digits(n);
    assert(digit_char(n % 10) as int == 48 + n % 10);
    if n < 10 {
        vstd::arithmetic::div_mod::lemma_small_mod(n, 10);
        assert(d.drop_last() =~= Seq::<char>::empty());
        assert(d.last() == digit_char(n));
        assert(digits_value(d) == digits_value(d.drop_last()) * 10 + (d.last() as int - 48));
    } else {
        lemma_decimal_digits_read_back(n / 10);
        assert(d.drop_last() =~= decimal_digits(n / 10));
        vstd::arithmetic::div_mod::lemma_fundamental_div_mod(n as int, 10);
        assert(d[0] == decimal_digits(n / 10)[0]);
        assert(d.last() == digit_char(n % 10));
        assert(digits_value(d) == digits_value(d.drop_last()) * 10 + (d.last() as int - 48));
    }
}

/// Leading zeros do not change the number a digit string stands for.
proof fn lemma_leading_zeros(k: nat, d: Seq<char>)
    ensures
        digits_value(Seq::new(k, |i: int| '0') + d) == digits_value(d),
    decreases d.len(), k,
{
    let z = Seq::new(k, |i: int| '0');
    if d.len() == 0 {
        assert(z + d =~= z);
        if k > 0 {
            assert(z.drop_last() =~= Seq::new((k - 1) as nat, |i: int| '0'));
            lemma_leading_zeros((k - 1) as nat, d);
            assert(Seq::new((k - 1) as nat, |i: int| '0') + d =~= Seq::new(
                (k - 1) as nat,
                |i: int| '0',
            ));
        }
    } else {
        assert((z + d).drop_last() =~= z + d.drop_last());
        lemma_leading_zeros(k, d.drop_last());
    }
}

/// When the number fits, the text of `format_to_exact_length` is `length`
/// digit characters that read back as the number.
pub proof fn lemma_exact_length_reads_back(n: nat, length: nat)
    requires
        decimal_digits(n).len() <= length,
    ensures
        exact_length_decimal(n, length).len() == length,
        forall|i: int|
            0 <= i < length ==> 48 <= #[trigger] (exact_length_decimal(n, length)[i] as int) <= 57,
        digits_value(exact_length_decimal(n, length)) == n,
{
    let d = decimal_digits(n);
    lemma_decimal_digits_read_back(n);
    lemma_leading_zeros((length - d.len()) as nat, d);
    let e = exact_length_decimal(n, length);
    let pad = (length - d.len()) as int;
    assert forall|i: int| 0 <= i < length implies 48 <= #[trigger] (e[i] as int) <= 57 by {
        if i >= pad {
            assert(e[i] == d[i - pad]);
        }
    }
}

/// When the number has more digits than fit, the text of
/// `format_to_exact_length` is its leading `length` digits.
pub proof fn lemma_exact_length_keeps_leading_digits(n: nat, length: nat)
    requires
        decimal_digits(n).len() > length,
    ensures
        exact_length_decimal(n, length).len() == length,
        forall|i: int|
            0 <= i < length ==> #[trigger] exact_length_decimal(n, length)[i] == decimal_digits(
                n,
            )[i],
{
}

/// The one-character string of digit `d`.
fn digit_str(d: u8) -> (s: &'static str)
    requires
        d < 10,
    ensures
        s@ == seq![digit_char(d as nat)],
{
    proof {
        reveal_strlit("0");
        reveal_strlit("1");
        reveal_strlit("2");
        reveal_strlit("3");
        reveal_strlit("4");
        reveal_strlit("5");
        reveal_strlit("6");
        reveal_strlit("7");
        reveal_strlit("8");
        reveal_strlit("9");
    }
    match d {
        0 => "0",
        1 => "1",
        2 => "2",
        3 => "3",
        4 => "4",
        5 => "5",
        6 => "6",
        7 => "7",
        8 => "8",
        _ => "9",
    }
}

/// Appends the decimal digits of `n`, most significant first.
fn push_digits(n: u32, digits: &mut Vec<u8>)
    ensures
        final(digits)@.len() == old(digits)@.len() + decimal_digits(n as nat).len(),
        final(digits)@.take(old(digits)@.len() as int) == old(digits)@,
        forall|i: int|
            0 <= i < decimal_digits(n as nat).len() ==> {
                &&& #[trigger] final(digits)@[old(digits)@.len() + i] < 10
                &&& digit_char(final(digits)@[old(digits)@.len() + i] as nat) == decimal_digits(
                    n as nat,
                )[i]
            },
    decreases n,
{
    if n >= 10 {
        push_digits(n / 10, digits);
    }
    digits.push((n % 10) as u8);
}

/// The number written in decimal with exactly `length` characters: cut
/// after `length` characters when longer, padded with leading zeros when
/// shorter.
pub fn format_to_exact_length(number: u32, length: usize) -> (s: String)
    ensures
        s@ == exact_length_decimal(number as nat, length as nat),
        s@.len() == length,
{
    let mut digits: Vec<u8> = Vec::new();
    push_digits(number, &mut digits);
    let ghost d = decimal_digits(number as nat);
    assert(digits@.len() == d.len());
    assert forall|i: int| 0 <= i < d.len() implies #[trigger] digits@[i] < 10 && digit_char(
        digits@[i] as nat,
    ) == d[i] by {
        assert(digits@[0 + i] == digits@[i]);
    }
    let n_digits = digits.len();
    let mut num_str = String::new();
    if n_digits < length {
        let pad = length - n_digits;
        let mut j: usize = 0;
        while j < pad
            invariant
                j <= pad,
                num_str@ == Seq::new(j as nat, |i: int| '0'),
            decreases pad - j,
        {
            proof {
                reveal_strlit("0");
            }
            num_str.append("0");
            assert(num_str@ =~= Seq::new((j + 1) as nat, |i: int| '0'));
            j += 1;
        }
    }
    let ghost prefix = num_str@;
    let keep = if n_digits > length {
        length
    } else {
        n_digits
    };
    let mut k: usize = 0;
    while k < keep
        invariant
            k <= keep <= n_digits,
            n_digits == digits@.len(),
            digits@.len() == d.len(),
            forall|i: int|
                0 <= i < d.len() ==> {
                    &&& #[trigger] digits@[i] < 10
                    &&& digit_char(digits@[i] as nat) == d[i]
                },
            num_str@ == prefix + d.take(k as int),
        decreases keep - k,
    {
        let c = digit_str(digits[k]);
        num_str.append(c);
        assert(d.take(k + 1) =~= d.take(k as int).push(d[k as int]));
        k += 1;
    }
    proof {
        if n_digits > length {
            assert(num_str@ =~= d.take(length as int));
        } else {
            assert(d.take(n_digits as int) =~= d);
        }
    }
    num_str
}

} // verus!
