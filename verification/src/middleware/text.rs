//! Pieces of log lines.
use vstd::prelude::*;

verus! {

/// The decimal digit `d`.
pub open spec fn digit(d: nat) -> char {
    (48 + d) as char
}

/// `n` in decimal.
pub open spec fn decimal(n: nat) -> Seq<char>
    decreases n,
{
    if n < 10 {
        seq![digit(n)]
    } else {
        decimal(n / 10).push(digit(n % 10))
    }
}

/// `text`, filled up with blanks on the right to `width` characters.
pub open spec fn padded(text: Seq<char>, width: nat) -> Seq<char> {
    if text.len() < width {
        text + Seq::new((width - text.len()) as nat, |i: int| ' ')
    } else {
        text
    }
}

/// The decimal digit `d`.
fn digit_text(d: u128) -> (r: &'static str)
    requires
        d < 10,
    ensures
        r@ == seq![digit(d as nat)],
{
    proof {
        reveal_strlit("0");
        reveal_strlit("1");
        reveal_strlit("2");
        reveal_strlit("3");
        reveal_strlit("4");
        reveal_strlit("5");
        reveal_strlit("6");
        reveal_strlit("7");
        reveal_strlit("8");
        reveal_strlit("9");
    }
    let r = if d == 0 {
        "0"
    } else if d == 1 {
        "1"
    } else if d == 2 {
        "2"
    } else if d == 3 {
        "3"
    } else if d == 4 {
        "4"
    } else if d == 5 {
        "5"
    } else if d == 6 {
        "6"
    } else if d == 7 {
        "7"
    } else if d == 8 {
        "8"
    } else {
        "9"
    };
    assert(r@ =~= seq![digit(d as nat)]);
    r
}

/// Appends `n` in decimal.
pub fn append_decimal(out: &mut String, n: u128)
    ensures
        final(out)@ == old(out)@ + decimal(n as nat),
    decreases n,
{
    if n >= 10 {
        append_decimal(out, n / 10);
    }
    out.append(digit_text(n % 10));
    assert(out@ =~= old(out)@ + decimal(n as nat));
}

/// Appends `text`, filled up with blanks on the right to `width` characters.
pub fn append_padded(out: &mut String, text: &str, width: usize)
    ensures
        final(out)@ == old(out)@ + padded(text@, width as nat),
{
    proof {
        reveal_strlit(" ");
    }
    out.append(text);
    let mut filled: usize = text.unicode_len();
    let ghost head = out@;
    let ghost len = text@.len();
    assert(head =~= head + Seq::new(0, |i: int| ' '));
    while filled < width
        invariant
            filled >= len,
            filled <= width || filled == len,
            " "@ == seq![' '],
            out@ == head + Seq::new((filled - len) as nat, |i: int| ' '),
        decreases width - filled,
    {
        out.append(" ");
        filled = filled + 1;
        assert(out@ =~= head + Seq::new((filled - len) as nat, |i: int| ' '));
    }
    assert(out@ =~= old(out)@ + padded(text@, width as nat));
}

/// Whether every byte is a decimal digit.
pub open spec fn all_digits(bytes: Seq<u8>) -> bool {
    forall|i: int| 0 <= i < bytes.len() ==> 48 <= #[trigger] bytes[i] <= 57
}

/// The number that decimal digits spell.
pub open spec fn value(bytes: Seq<u8>) -> int
    decreases bytes.len(),
{
    if bytes.len() == 0 {
        0
    } else {
        value(bytes.drop_last()) * 10 + (bytes.last() - 48)
    }
}

/// The digits of a number: what follows an optional `+` sign.
pub open spec fn unsigned_part(bytes: Seq<u8>) -> Seq<u8> {
    if bytes.len() > 0 && bytes[0] == 43 {
        bytes.skip(1)
    } else {
        bytes
    }
}

/// Whether `bytes` spell a `u64` in decimal: an optional `+` sign, then one or more digits,
/// whose value fits.
pub open spec fn spells_u64(bytes: Seq<u8>) -> bool {
    let digits = unsigned_part(bytes);
    &&& digits.len() > 0
    &&& all_digits(digits)
    &&& value(digits) <= u64::MAX
}

proof fn lemma_value_grows(bytes: Seq<u8>, n: int)
    requires
        all_digits(bytes),
        0 <= n <= bytes.len(),
    ensures
        0 <= value(bytes.take(n)) <= value(bytes),
    decreases bytes.len() - n,
{
    if n == bytes.len() {
        assert(bytes.take(n) =~= bytes);
        lemma_value_nonnegative(bytes);
    } else {
        lemma_value_grows(bytes, n + 1);
        let longer = bytes.take(n + 1);
        assert(longer.drop_last() =~= bytes.take(n));
        assert(longer.last() == bytes[n]);
        assert(all_digits(bytes.take(n)));
        lemma_value_nonnegative(bytes.take(n));
    }
}

proof fn lemma_value_nonnegative(bytes: Seq<u8>)
    requires
        all_digits(bytes),
    ensures
        value(bytes) >= 0,
    decreases bytes.len(),
{
    if bytes.len() > 0 {
        let rest = bytes.drop_last();
        assert forall|i: int| 0 <= i < rest.len() implies 48 <= #[trigger] rest[i] <= 57 by {
            assert(rest[i] == bytes[i]);
        }
        lemma_value_nonnegative(rest);
        assert(48 <= bytes[bytes.len() - 1]);
    }
}

/// Parses a `u64` in decimal.
pub fn parse_u64(bytes: &[u8]) -> (r: Option<u64>)
    ensures
        r is Some <==> spells_u64(bytes@),
        r matches Some(n) ==> n == value(unsigned_part(bytes@)),
{
    let start: usize = if bytes.len() > 0 && bytes[0] == 43 {
        1
    } else {
        0
    };
    let ghost digits = unsigned_part(bytes@);
    if start == bytes.len() {
        return None;
    }
    let mut n: u64 = 0;
    let mut i: usize = start;
    assert(digits.take(0) =~= Seq::empty());
    while i < bytes.len()
        invariant
            start <= i <= bytes.len(),
            start <= 1,
            digits.len() == bytes@.len() - start,
            forall|j: int| 0 <= j < digits.len() ==> #[trigger] digits[j] == bytes@[j + start],
            digits == unsigned_part(bytes@),
            all_digits(digits.take(i - start)),
            n == value(digits.take(i - start)),
        decreases bytes.len() - i,
    {
        let b = bytes[i];
        let ghost at = i - start;
        assert(digits[at] == b);
        if b < 48 || b > 57 {
            return None;
        }
        proof {
            let longer = digits.take(at + 1);
            assert(longer.drop_last() =~= digits.take(at));
            assert(longer.last() == b);
            assert forall|j: int| 0 <= j < longer.len() implies 48 <= #[trigger] longer[j]
                <= 57 by {
                if j < at {
                    assert(longer[j] == digits.take(at)[j]);
                }
            }
            if all_digits(digits) {
                lemma_value_grows(digits, at + 1);
            }
        }
        let d = (b - 48) as u64;
        if n > (u64::MAX - d) / 10 {
            return None;
        }
        n = n * 10 + d;
        i = i + 1;
    }
    assert(digits.take(digits.len() as int) =~= digits);
    Some(n)
}

} // verus!
