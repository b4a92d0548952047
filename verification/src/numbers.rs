//! Decimal notation of whole numbers: writing and reading.

use vstd::prelude::*;

use crate::text::chars_of;

verus! {

/// `c` is one of `0` to `9`.
pub open spec fn is_digit(c: char) -> bool {
    '0' <= c && c <= '9'
}

/// The character of a digit.
pub open spec fn digit_char(d: int) -> char {
    ('0' as int + d) as char
}

/// The number that a row of digits stands for.
pub open spec fn value_of(s: Seq<char>) -> nat
    decreases s.len(),
{
    if s.len() == 0 {
        0
    } else {
        10 * value_of(s.drop_last()) + (s.last() as int - '0' as int) as nat
    }
}

/// A non-empty row of digits.
pub open spec fn all_digits(s: Seq<char>) -> bool {
    s.len() > 0 && forall|i: int| 0 <= i < s.len() ==> is_digit(#[trigger] s[i])
}

/// The shortest decimal notation of a number.
pub open spec fn decimal(n: nat) -> Seq<char>
    decreases n,
{
    if n < 10 {
        seq![digit_char(n as int)]
    } else {
        decimal(n / 10).push(digit_char((n % 10) as int))
    }
}

/// The shortest decimal notation of a number, with a minus sign below zero.
pub open spec fn signed_decimal(n: int) -> Seq<char> {
    if n < 0 {
        seq!['-'] + decimal((-n) as nat)
    } else {
        decimal(n as nat)
    }
}

/// What a text says as a number without a sign, or with a plus sign.
pub open spec fn read_unsigned(s: Seq<char>) -> Option<nat> {
    let body = if s.len() > 0 && s[0] == '+' { s.skip(1) } else { s };
    if all_digits(body) {
        Some(value_of(body))
    } else {
        None
    }
}

/// What a text says as a number with an optional sign.
pub open spec fn read_signed(s: Seq<char>) -> Option<int> {
    if s.len() > 0 && s[0] == '-' {
        if all_digits(s.skip(1)) {
            Some(-(value_of(s.skip(1)) as int))
        } else {
            None
        }
    } else {
        match read_unsigned(s) {
            Some(n) => Some(n as int),
            None => None,
        }
    }
}

/// The text read as a `u32`: digits with an optional plus sign, in range.
pub open spec fn read_u32(s: Seq<char>) -> Option<u32> {
    match read_unsigned(s) {
        Some(n) => if n <= u32::MAX {
            Some(n as u32)
        } else {
            None
        },
        None => None,
    }
}

/// The text read as an `i32`: digits with an optional sign, in range.
pub open spec fn read_i32(s: Seq<char>) -> Option<i32> {
    match read_signed(s) {
        Some(n) => if i32::MIN <= n <= i32::MAX {
            Some(n as i32)
        } else {
            None
        },
        None => None,
    }
}

/// The digit's character as a string.
fn digit_text(d: u8) -> (r: &'static str)
    requires
        d < 10,
    ensures
        r@ == seq![digit_char(d as int)],
{
    proof {
        reveal_strlit("0");
        reveal_strlit("1");
        reveal_strlit("2");
        reveal_strlit("3");
        reveal_strlit("4");
        reveal_strlit("5");
        reveal_strlit("6");
        reveal_strlit("7");
        reveal_strlit("8");
        reveal_strlit("9");
    }
    let r: &'static str = match d {
        0 => "0",
        1 => "1",
        2 => "2",
        3 => "3",
        4 => "4",
        5 => "5",
        6 => "6",
        7 => "7",
        8 => "8",
        _ => "9",
    };
    assert(r@ =~= seq![digit_char(d as int)]);
    r
}

/// Writes a number in decimal.
pub fn decimal_text(n: u64) -> (r: String)
    ensures
        r@ == decimal(n as nat),
    decreases n,
{
    if n < 10 {
        digit_text(n as u8).to_owned()
    } else {
        let mut out: String = decimal_text(n / 10);
        out.append(digit_text((n % 10) as u8));
        assert(out@ =~= decimal(n as nat));
        out
    }
}

/// Writes a signed number in decimal.
pub fn signed_text(n: i64) -> (r: String)
    ensures
        r@ == signed_decimal(n as int),
{
    if n < 0 {
        proof {
            reveal_strlit("-");
        }
        let magnitude: u64 = if n == i64::MIN {
            0x8000_0000_0000_0000
        } else {
            (-n) as u64
        };
        let mut out: String = "-".to_owned();
        out.append(decimal_text(magnitude).as_str());
        assert(out@ =~= seq!['-'] + decimal((-n) as nat));
        out
    } else {
        decimal_text(n as u64)
    }
}

proof fn lemma_value_take(s: Seq<char>, i: int)
    requires
        0 <= i < s.len(),
    ensures
        value_of(s.take(i + 1)) == 10 * value_of(s.take(i)) + (s[i] as int - '0' as int) as nat,
{
    assert(s.take(i + 1).drop_last() =~= s.take(i));
}

/// Reading on never makes the number smaller.
proof fn lemma_value_grows(s: Seq<char>, i: int)
    requires
        0 <= i <= s.len(),
    ensures
        value_of(s.take(i)) <= value_of(s),
    decreases s.len() - i,
{
    if i == s.len() {
        assert(s.take(i) =~= s);
    } else {
        lemma_value_take(s, i);
        lemma_value_grows(s, i + 1);
    }
}

/// Reads the digits from position `from` on; `None` if there is no digit, if a
/// character is not a digit, or if the number exceeds `limit`.
fn read_digits(v: &Vec<char>, from: usize, limit: u64) -> (r: Option<u64>)
    requires
        from <= v@.len(),
        limit <= u32::MAX,
    ensures
        r == (if all_digits(v@.skip(from as int)) && value_of(v@.skip(from as int)) <= limit {
            Some(value_of(v@.skip(from as int)) as u64)
        } else {
            None
        }),
{
    let ghost body = v@.skip(from as int);
    if from == v.len() {
        return None;
    }
    let mut n: u64 = 0;
    for i in from..v.len()
        invariant
            from < v@.len(),
            limit <= u32::MAX,
            body == v@.skip(from as int),
            n == value_of(body.take(i - from)),
            n <= limit,
            forall|j: int| 0 <= j < i - from ==> is_digit(#[trigger] body[j]),
    {
        let c: char = v[i];
        assert(c == body[i - from]);
        if !('0' <= c && c <= '9') {
            return None;
        }
        proof {
            lemma_value_take(body, i - from);
            lemma_value_grows(body, i - from + 1);
        }
        n = 10 * n + (c as u64 - '0' as u64);
        if n > limit {
            return None;
        }
    }
    assert(body.take(body.len() as int) =~= body);
    Some(n)
}

/// Reads a text as a `u32`.
pub fn parse_u32(s: &str) -> (r: Option<u32>)
    ensures
        r == read_u32(s@),
{
    let v: Vec<char> = chars_of(s);
    let from: usize = if v.len() > 0 && v[0] == '+' {
        1
    } else {
        0
    };
    assert(v@.skip(0) =~= v@);
    match read_digits(&v, from, 0xffff_ffff) {
        Some(n) => Some(n as u32),
        None => None,
    }
}

/// Reads a text as an `i32`.
pub fn parse_i32(s: &str) -> (r: Option<i32>)
    ensures
        r == read_i32(s@),
{
    let v: Vec<char> = chars_of(s);
    assert(v@.skip(0) =~= v@);
    if v.len() > 0 && v[0] == '-' {
        match read_digits(&v, 1, 0x8000_0000) {
            Some(n) => Some((-(n as i64)) as i32),
            None => None,
        }
    } else {
        let from: usize = if v.len() > 0 && v[0] == '+' {
            1
        } else {
            0
        };
        match read_digits(&v, from, 0x7fff_ffff) {
            Some(n) => Some(n as i32),
            None => None,
        }
    }
}

/// The notation of a number is a row of digits that stands for the number.
pub proof fn decimal_reads_back(n: nat)
    ensures
        all_digits(decimal(n)),
        value_of(decimal(n)) == n,
        read_unsigned(decimal(n)) == Some(n),
    decreases n,
{
    if n < 10 {
        assert(decimal(n).drop_last() =~= Seq::<char>::empty());
        assert(value_of(decimal(n).drop_last()) == 0);
        assert(decimal(n).last() == digit_char(n as int));
    } else {
        decimal_reads_back(n / 10);
        assert(decimal(n).drop_last() =~= decimal(n / 10));
        assert(decimal(n).last() == digit_char((n % 10) as int));
    }
    assert(is_digit(decimal(n)[0]));
}

/// A signed number's notation reads back as the number.
pub proof fn signed_decimal_reads_back(n: int)
    ensures
        read_signed(signed_decimal(n)) == Some(n),
{
    if n < 0 {
        decimal_reads_back((-n) as nat);
        assert(signed_decimal(n).skip(1) =~= decimal((-n) as nat));
    } else {
        decimal_reads_back(n as nat);
        assert(is_digit(decimal(n as nat)[0]));
    }
}

/// A number is read digit by digit: one more digit makes ten times the number and
/// that digit.
pub proof fn numbers_are_read_digit_by_digit(s: Seq<char>, c: char)
    requires
        forall|i: int| 0 <= i < s.len() ==> '0' <= #[trigger] s[i] <= '9',
        '0' <= c <= '9',
    ensures
        read_unsigned(seq![c]) == Some((c as int - 48) as nat),
        s.len() > 0 ==> read_unsigned(s) is Some,
        s.len() > 0 ==> read_unsigned(s.push(c)) == Some(
            (10 * read_unsigned(s)->0 + c as int - 48) as nat,
        ),
{
    let one = seq![c];
    assert(one.drop_last() =~= Seq::<char>::empty());
    assert(value_of(one.drop_last()) == 0);
    assert(all_digits(one));
    if s.len() > 0 {
        assert(is_digit(s[0]));
        assert(all_digits(s));
        let more = s.push(c);
        assert forall|i: int| 0 <= i < more.len() implies is_digit(#[trigger] more[i]) by {
            if i < s.len() {
                assert(more[i] == s[i]);
            }
        }
        assert(more[0] == s[0]);
        assert(more.drop_last() =~= s);
    }
}

/// A plus sign changes nothing; a minus sign makes a signed number negative, and is
/// not part of an unsigned one.
pub proof fn signs_are_read(digits: Seq<char>)
    requires
        digits.len() > 0,
        forall|i: int| 0 <= i < digits.len() ==> '0' <= #[trigger] digits[i] <= '9',
    ensures
        read_unsigned(digits) is Some,
        read_unsigned(seq!['+'] + digits) == read_unsigned(digits),
        read_unsigned(seq!['-'] + digits) is None,
        read_signed(digits) == Some(read_unsigned(digits)->0 as int),
        read_signed(seq!['+'] + digits) == read_signed(digits),
        read_signed(seq!['-'] + digits) == Some(-(read_unsigned(digits)->0 as int)),
{
    assert(is_digit(digits[0]));
    assert(all_digits(digits));
    let plus = seq!['+'] + digits;
    let minus = seq!['-'] + digits;
    assert(plus[0] == '+' && minus[0] == '-');
    assert(plus.skip(1) =~= digits);
    assert(minus.skip(1) =~= digits);
    assert(!is_digit(minus[0]));
}

/// Nothing but digits after an optional sign is read: a text that is empty, a lone
/// sign, or has any other character is no number.
pub proof fn other_characters_are_refused(s: Seq<char>, i: int)
    requires
        0 <= i <= s.len(),
        i < s.len() ==> !('0' <= s[i] <= '9') && !(i == 0 && s.len() > 1 && (s[0] == '+' || s[0]
            == '-')),
        i == s.len() ==> s.len() == 0,
    ensures
        read_unsigned(s) is None,
        read_signed(s) is None,
{
    if s.len() > 0 {
        let body = s.skip(1);
        assert(!is_digit(s[i]));
        if i > 0 {
            assert(body[i - 1] == s[i]);
        }
    }
}

/// A reading that fits its type is kept, and one that does not is refused.
pub proof fn readings_fit_their_type(s: Seq<char>, n: u32, k: i32)
    ensures
        read_u32(s) == Some(n) <==> read_unsigned(s) == Some(n as nat),
        read_i32(s) == Some(k) <==> read_signed(s) == Some(k as int),
        read_unsigned(s) matches Some(v) && v <= 4_294_967_295 ==> read_u32(s) is Some,
        read_signed(s) matches Some(v) && -2_147_483_648 <= v <= 2_147_483_647 ==> read_i32(
            s,
        ) is Some,
{
}

/// The notation of a number is the shortest one: it does not begin with a zero,
/// unless it is the zero itself, and only a number below zero has a sign.
pub proof fn notation_is_shortest(n: nat, k: int)
    ensures
        decimal(0) == seq!['0'],
        n > 0 ==> '1' <= decimal(n)[0] <= '9',
        forall|i: int| 0 <= i < decimal(n).len() ==> '0' <= #[trigger] decimal(n)[i] <= '9',
        k >= 0 ==> signed_decimal(k) == decimal(k as nat),
        k < 0 ==> signed_decimal(k) == seq!['-'] + decimal((-k) as nat),
    decreases n,
{
    decimal_reads_back(n);
    assert forall|i: int| 0 <= i < decimal(n).len() implies '0' <= #[trigger] decimal(n)[i]
        <= '9' by {
        assert(is_digit(decimal(n)[i]));
    }
    assert(decimal(0) =~= seq!['0']);
    if n >= 10 {
        notation_is_shortest(n / 10, k);
        decimal_reads_back(n / 10);
        assert(decimal(n)[0] == decimal(n / 10)[0]);
    } else {
        assert(decimal(n)[0] == digit_char(n as int));
    }
}

} // verus!
