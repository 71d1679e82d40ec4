use vstd::prelude::*;
use vstd::string::*;

verus! {

/// Whether `c` is one of the ASCII digits `0` to `9`.
pub open spec fn is_digit(c: char) -> bool {
    48 <= (c as int) <= 57
}

/// The value of an ASCII digit.
pub open spec fn digit_value(c: char) -> int {
    (c as int) - 48
}

/// The ASCII digit whose value is `d`, for `d` below ten.
pub open spec fn digit_char(d: nat) -> char {
    (d + 48) as char
}

/// The decimal notation of `n`: its digits, most significant first,
/// with no leading zero (`"0"` for zero).
pub open spec fn decimal(n: nat) -> Seq<char>
    decreases n,
{
    if n < 10 {
        seq![digit_char(n)]
    } else {
        decimal(n / 10).push(digit_char(n % 10))
    }
}

/// Why a text is not a port number (the error kinds of `u16`'s `FromStr`).
#[derive(Clone, Copy, Debug, PartialEq, Eq, Structural)]
pub enum PortParseError {
    /// The text is empty.
    Empty,
    /// A character that is not a decimal digit, or a sign with no digit after it.
    InvalidDigit,
    /// The number is larger than 65535.
    PosOverflow,
}

/// Reading the digits of `s` from left to right, the value so far, or the
/// first problem met: a non-digit, or a value above 65535.
pub open spec fn scan_digits(s: Seq<char>) -> Result<nat, PortParseError>
    decreases s.len(),
{
    if s.len() == 0 {
        Ok(0)
    } else {
        match scan_digits(s.drop_last()) {
            Err(e) => Err(e),
            Ok(v) => if !is_digit(s.last()) {
                Err(PortParseError::InvalidDigit)
            } else if v * 10 + digit_value(s.last()) > 65535 {
                Err(PortParseError::PosOverflow)
            } else {
                Ok((v * 10 + digit_value(s.last())) as nat)
            },
        }
    }
}

/// What reading `s` as a port number (a `u16` in decimal) gives: an optional
/// leading `+`, then one or more decimal digits whose value fits in 16 bits.
pub open spec fn spec_parse_port(s: Seq<char>) -> Result<u16, PortParseError> {
    if s.len() == 0 {
        Err(PortParseError::Empty)
    } else {
        let digits = if s[0] == '+' { s.drop_first() } else { s };
        if digits.len() == 0 {
            Err(PortParseError::InvalidDigit)
        } else {
            match scan_digits(digits) {
                Ok(v) => Ok(v as u16),
                Err(e) => Err(e),
            }
        }
    }
}

/// A text that may be absent, by its characters.
pub open spec fn opt_chars(o: Option<String>) -> Option<Seq<char>> {
    match o {
        Some(s) => Some(s@),
        None => None,
    }
}

/// `String::push`: appends one character to the end of the string.
#[verifier::external_body]
pub(crate) fn push_char(s: &mut String, c: char)
    ensures
        final(s)@ == old(s)@.push(c),
{
    s.push(c)
}

/// The ASCII digit of a value below ten.
pub fn digit_to_char(d: u8) -> (c: char)
    requires
        d < 10,
    ensures
        c == digit_char(d as nat),
        is_digit(c),
        digit_value(c) == d,
{
    (d + 48) as char
}

/// Appends the decimal notation of `n` to `s`.
pub fn push_decimal(s: &mut String, n: u64)
    ensures
        final(s)@ == old(s)@ + decimal(n as nat),
    decreases n,
{
    if n >= 10 {
        push_decimal(s, n / 10);
    }
    let c = digit_to_char((n % 10) as u8);
    push_char(s, c);
    proof {
        if n < 10 {
            assert(decimal(n as nat) =~= seq![digit_char(n as nat)]);
        } else {
            assert(decimal(n as nat) == decimal((n / 10) as nat).push(digit_char((n % 10) as nat)));
        }
    }
}

/// The decimal notation of `n` as a new string (what `n.to_string()` gives).
pub fn decimal_text(n: u64) -> (s: String)
    ensures
        s@ == decimal(n as nat),
{
    let mut s = String::new();
    push_decimal(&mut s, n);
    assert(s@ =~= decimal(n as nat));
    s
}

/// A failure met while scanning a prefix stays the answer for the whole text.
proof fn lemma_scan_prefix_error(s: Seq<char>, k: int)
    requires
        0 <= k <= s.len(),
        scan_digits(s.take(k)) is Err,
    ensures
        scan_digits(s) == scan_digits(s.take(k)),
    decreases s.len(),
{
    if k < s.len() {
        assert(s.drop_last().take(k) =~= s.take(k));
        lemma_scan_prefix_error(s.drop_last(), k);
    } else {
        assert(s.take(k) =~= s);
    }
}

/// Reads a port number the way `str::parse::<u16>` does: an optional `+`,
/// then decimal digits whose value is at most 65535.
pub fn parse_port(text: &str) -> (r: Result<u16, PortParseError>)
    ensures
        r == spec_parse_port(text@),
{
    let n: usize = text.unicode_len();
    if n == 0 {
        return Err(PortParseError::Empty);
    }
    let start: usize = if text.get_char(0) == '+' { 1 } else { 0 };
    let ghost digits = if text@[0] == '+' { text@.drop_first() } else { text@ };
    assert(digits =~= text@.subrange(start as int, n as int));
    if start == n {
        return Err(PortParseError::InvalidDigit);
    }
    let mut value: u32 = 0;
    let mut i: usize = start;
    assert(digits.take(0) =~= Seq::<char>::empty());
    while i < n
        invariant
            start <= i <= n,
            n == text@.len(),
            digits == text@.subrange(start as int, n as int),
            digits.len() > 0,
            digits == (if text@[0] == '+' { text@.drop_first() } else { text@ }),
            scan_digits(digits.take(i - start)) == Ok::<nat, PortParseError>(value as nat),
            value <= 65535,
        decreases n - i,
    {
        let c = text.get_char(i);
        let code: u32 = c as u32;
        let ghost k = (i - start) as int;
        assert(digits.take(k + 1).drop_last() =~= digits.take(k));
        assert(digits.take(k + 1).last() == c);
        if code < 48 || code > 57 {
            proof {
                assert(scan_digits(digits.take(k + 1)) == Err::<nat, PortParseError>(PortParseError::InvalidDigit));
                lemma_scan_prefix_error(digits, k + 1);
            }
            return Err(PortParseError::InvalidDigit);
        }
        let d: u32 = code - 48;
        if value * 10 + d > 65535 {
            proof {
                assert(scan_digits(digits.take(k + 1)) == Err::<nat, PortParseError>(PortParseError::PosOverflow));
                lemma_scan_prefix_error(digits, k + 1);
            }
            return Err(PortParseError::PosOverflow);
        }
        value = value * 10 + d;
        i = i + 1;
    }
    assert(digits.take(n - start) =~= digits);
    Ok(value as u16)
}

/// Every character of a decimal notation is a digit, and reading the
/// notation gives the number back.
proof fn lemma_scan_decimal(n: nat)
    requires
        n <= 65535,
    ensures
        decimal(n).len() > 0,
        forall|i: int| 0 <= i < decimal(n).len() ==> is_digit(#[trigger] decimal(n)[i]),
        scan_digits(decimal(n)) == Ok::<nat, PortParseError>(n),
    decreases n,
{
    if n < 10 {
        let d = decimal(n);
        assert(d =~= seq![digit_char(n)]);
        assert(d.drop_last() =~= Seq::<char>::empty());
        assert(digit_char(n) as int == n + 48);
        assert(scan_digits(d.drop_last()) == Ok::<nat, PortParseError>(0));
    } else {
        lemma_scan_decimal(n / 10);
        let d = decimal(n);
        assert(d.drop_last() =~= decimal(n / 10));
        assert(d.last() == digit_char(n % 10));
        assert(digit_char(n % 10) as int == n % 10 + 48);
        assert((n / 10) * 10 + n % 10 == n);
    }
}

/// Law: reading back the decimal text of a port number gives the same port.
pub proof fn lemma_port_text_round_trip(port: u16)
    ensures
        spec_parse_port(decimal(port as nat)) == Ok::<u16, PortParseError>(port),
{
    lemma_scan_decimal(port as nat);
    assert(is_digit(decimal(port as nat)[0]));
}

/// The number a string of decimal digits stands for (its characters taken as
/// digits 0 to 9 by their codes).
pub open spec fn value_of_digits(s: Seq<char>) -> int
    decreases s.len(),
{
    if s.len() == 0 {
        0
    } else {
        value_of_digits(s.drop_last()) * 10 + ((s.last() as int) - 48)
    }
}

/// Whether every character of `s` is one of `0` to `9`.
pub open spec fn all_decimal_digits(s: Seq<char>) -> bool {
    forall|i: int| 0 <= i < s.len() ==> 48 <= (#[trigger] s[i] as int) <= 57
}

proof fn lemma_value_nonneg(s: Seq<char>)
    requires
        all_decimal_digits(s),
    ensures
        value_of_digits(s) >= 0,
        s.len() > 0 ==> value_of_digits(s.drop_last()) <= value_of_digits(s),
    decreases s.len(),
{
    if s.len() > 0 {
        assert(all_decimal_digits(s.drop_last()));
        lemma_value_nonneg(s.drop_last());
        assert(48 <= (s.last() as int) <= 57);
    }
}

proof fn lemma_scan_is_value(s: Seq<char>)
    ensures
        all_decimal_digits(s) && value_of_digits(s) <= 65535 ==> scan_digits(s) == Ok::<
            nat,
            PortParseError,
        >(value_of_digits(s) as nat),
        scan_digits(s) is Ok ==> all_decimal_digits(s) && scan_digits(s)->Ok_0 == value_of_digits(s),
    decreases s.len(),
{
    if s.len() > 0 {
        let t = s.drop_last();
        lemma_scan_is_value(t);
        if all_decimal_digits(s) {
            assert(all_decimal_digits(t));
            lemma_value_nonneg(s);
            assert(48 <= (s.last() as int) <= 57);
        }
        if scan_digits(s) is Ok {
            assert forall|i: int| 0 <= i < s.len() implies 48 <= (#[trigger] s[i] as int) <= 57 by {
                if i < s.len() - 1 {
                    assert(s[i] == t[i]);
                }
            }
        }
    }
}

/// Law: the decimal text of a number is made of the digits `0` to `9`, starts
/// with `0` only for zero, and stands for that very number.
pub proof fn lemma_decimal_value(n: nat)
    ensures
        decimal(n).len() > 0,
        all_decimal_digits(decimal(n)),
        value_of_digits(decimal(n)) == n,
        n > 0 ==> decimal(n)[0] != '0',
    decreases n,
{
    if n < 10 {
        assert(decimal(n) =~= seq![digit_char(n)]);
        assert(decimal(n).drop_last() =~= Seq::<char>::empty());
        assert(digit_char(n) as int == n + 48);
        assert(value_of_digits(decimal(n).drop_last()) == 0);
        assert(decimal(n).last() == digit_char(n));
    } else {
        lemma_decimal_value(n / 10);
        let d = decimal(n);
        assert(d.drop_last() =~= decimal(n / 10));
        assert(digit_char(n % 10) as int == n % 10 + 48);
        assert(d[0] == decimal(n / 10)[0]);
        assert forall|i: int| 0 <= i < d.len() implies 48 <= (#[trigger] d[i] as int) <= 57 by {
            if i < d.len() - 1 {
                assert(d[i] == decimal(n / 10)[i]);
            }
        }
        assert((n / 10) * 10 + n % 10 == n);
        assert(d.last() == digit_char(n % 10));
        assert(value_of_digits(d) == value_of_digits(decimal(n / 10)) * 10 + (n % 10));
    }
}

/// Law: a text reads as a port exactly when it is an optional `+` followed by
/// one or more digits `0`-`9` standing for a number up to 65535, and the port
/// is that number.
pub proof fn lemma_parse_port_is_digits_value(s: Seq<char>)
    ensures
        ({
            let digits = if s.len() > 0 && s[0] == '+' { s.drop_first() } else { s };
            &&& (digits.len() > 0 && all_decimal_digits(digits) && value_of_digits(digits) <= 65535)
                ==> spec_parse_port(s) == Ok::<u16, PortParseError>(value_of_digits(digits) as u16)
            &&& spec_parse_port(s) is Ok ==> digits.len() > 0 && all_decimal_digits(digits)
                && spec_parse_port(s)->Ok_0 == value_of_digits(digits)
        }),
{
    let digits = if s.len() > 0 && s[0] == '+' { s.drop_first() } else { s };
    lemma_scan_is_value(digits);
    if digits.len() > 0 && all_decimal_digits(digits) {
        lemma_value_nonneg(digits);
    }
}

/// Law: a port's decimal text reads back as that port, with or without a
/// leading `+`.
pub proof fn lemma_port_text_with_sign(port: u16)
    ensures
        spec_parse_port(seq!['+'] + decimal(port as nat)) == Ok::<u16, PortParseError>(port),
        spec_parse_port(decimal(port as nat)) == Ok::<u16, PortParseError>(port),
{
    lemma_decimal_value(port as nat);
    let t = seq!['+'] + decimal(port as nat);
    assert(t.drop_first() =~= decimal(port as nat));
    lemma_parse_port_is_digits_value(t);
    lemma_parse_port_is_digits_value(decimal(port as nat));
    assert(decimal(port as nat)[0] != '+') by {
        assert(48 <= (decimal(port as nat)[0] as int) <= 57);
    }
}

} // verus!
