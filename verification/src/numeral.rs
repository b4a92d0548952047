//! Real-number literals: the texts that denote a floating-point number.
//!
//! The library never computes with real numbers. It decides which text a
//! setting has and carries the text; a [`Numeral`] is guaranteed to be readable.

use vstd::prelude::*;

use crate::numbers::all_digits;
use crate::numbers::is_digit;
use crate::text::chars_of;
use crate::text::lower;
use crate::text::same_lowered;

verus! {

/// How many digits a text begins with.
pub open spec fn digit_run(s: Seq<char>) -> nat
    decreases s.len(),
{
    if s.len() > 0 && is_digit(s[0]) {
        1 + digit_run(s.skip(1))
    } else {
        0
    }
}

/// The text without a leading sign.
pub open spec fn without_sign(s: Seq<char>) -> Seq<char> {
    if s.len() > 0 && (s[0] == '+' || s[0] == '-') {
        s.skip(1)
    } else {
        s
    }
}

/// An exponent: `e` or `E`, an optional sign, digits.
pub open spec fn is_exponent(s: Seq<char>) -> bool {
    &&& s.len() > 0
    &&& s[0] == 'e' || s[0] == 'E'
    &&& all_digits(without_sign(s.skip(1)))
}

/// What follows the whole part: an optional point with fraction digits, then an
/// optional exponent. `whole` is the number of digits before it.
pub open spec fn is_number_tail(whole: nat, s: Seq<char>) -> bool {
    let fraction = if s.len() > 0 && s[0] == '.' {
        digit_run(s.skip(1))
    } else {
        0
    };
    let rest = if s.len() > 0 && s[0] == '.' {
        s.skip(1).skip(fraction as int)
    } else {
        s
    };
    &&& whole + fraction > 0
    &&& rest.len() == 0 || is_exponent(rest)
}

/// A text that denotes a floating-point number: an optional sign, then an
/// infinity, a not-a-number, or digits with an optional point and exponent.
pub open spec fn is_number_text(s: Seq<char>) -> bool {
    let body = without_sign(s);
    ||| lower(body) == "inf"@
    ||| lower(body) == "infinity"@
    ||| lower(body) == "nan"@
    ||| is_number_tail(digit_run(body), body.skip(digit_run(body) as int))
}

proof fn lemma_digit_run(s: Seq<char>, n: int)
    requires
        0 <= n <= s.len(),
        forall|i: int| 0 <= i < n ==> is_digit(#[trigger] s[i]),
        n == s.len() || !is_digit(s[n]),
    ensures
        digit_run(s) == n,
    decreases n,
{
    if n > 0 {
        let t = s.skip(1);
        assert forall|i: int| 0 <= i < n - 1 implies is_digit(#[trigger] t[i]) by {
            assert(is_digit(s[i + 1]));
        }
        lemma_digit_run(t, n - 1);
    }
}

/// Digits, a point, digits: such a text denotes a number.
pub proof fn lemma_plain_number(s: Seq<char>, point: int)
    requires
        0 < point < s.len(),
        s[point] == '.',
        forall|i: int| 0 <= i < s.len() && i != point ==> is_digit(#[trigger] s[i]),
    ensures
        is_number_text(s),
{
    assert(is_digit(s[0]));
    lemma_digit_run(s, point);
    let tail = s.skip(point);
    let fraction = tail.skip(1);
    assert forall|i: int| 0 <= i < fraction.len() implies is_digit(#[trigger] fraction[i]) by {
        assert(is_digit(s[point + 1 + i]));
    }
    lemma_digit_run(fraction, fraction.len() as int);
}

/// The position of the first character at or after `from` that is no digit.
fn skip_digits(v: &Vec<char>, from: usize) -> (r: usize)
    requires
        from <= v@.len(),
    ensures
        from <= r <= v@.len(),
        r - from == digit_run(v@.skip(from as int)),
{
    let mut i: usize = from;
    while i < v.len() && '0' <= v[i] && v[i] <= '9'
        invariant
            from <= i <= v@.len(),
            forall|j: int| from <= j < i ==> is_digit(#[trigger] v@[j]),
        decreases v@.len() - i,
    {
        i = i + 1;
    }
    let ghost s = v@.skip(from as int);
    assert forall|j: int| 0 <= j < i - from implies is_digit(#[trigger] s[j]) by {
        assert(is_digit(v@[from + j]));
    }
    proof {
        lemma_digit_run(s, i - from);
    }
    i
}

/// Whether the text from `from` on is an exponent.
fn exponent_at(v: &Vec<char>, from: usize) -> (r: bool)
    requires
        from <= v@.len(),
    ensures
        r == is_exponent(v@.skip(from as int)),
{
    let ghost s = v@.skip(from as int);
    if from == v.len() || !(v[from] == 'e' || v[from] == 'E') {
        return false;
    }
    let mut at: usize = from + 1;
    assert(s.skip(1) =~= v@.skip(at as int));
    if at < v.len() && (v[at] == '+' || v[at] == '-') {
        at = at + 1;
        assert(s.skip(1).skip(1) =~= v@.skip(at as int));
    }
    let ghost digits = v@.skip(at as int);
    assert(without_sign(s.skip(1)) == digits);
    let end: usize = skip_digits(v, at);
    proof {
        lemma_run_is_digits(digits);
        if all_digits(digits) {
            lemma_digit_run(digits, digits.len() as int);
        }
    }
    end == v.len() && end > at
}

proof fn lemma_run_is_digits(s: Seq<char>)
    ensures
        digit_run(s) <= s.len(),
        forall|i: int| 0 <= i < digit_run(s) ==> is_digit(#[trigger] s[i]),
    decreases s.len(),
{
    if s.len() > 0 && is_digit(s[0]) {
        let t = s.skip(1);
        lemma_run_is_digits(t);
        assert forall|i: int| 0 <= i < digit_run(s) implies is_digit(#[trigger] s[i]) by {
            if i > 0 {
                assert(is_digit(t[i - 1]));
            }
        }
    }
}

/// Whether a text denotes a floating-point number.
pub fn number_text(s: &str) -> (r: bool)
    ensures
        r == is_number_text(s@),
{
    let n: usize = s.unicode_len();
    let signed: bool = n > 0 && (s.get_char(0) == '+' || s.get_char(0) == '-');
    let body: &str = if signed {
        s.substring_char(1, n)
    } else {
        s
    };
    assert(body@ =~= without_sign(s@));
    if same_lowered(body, "inf") || same_lowered(body, "infinity") || same_lowered(body, "nan") {
        return true;
    }
    let v: Vec<char> = chars_of(body);
    assert(v@.skip(0) =~= v@);
    let whole: usize = skip_digits(&v, 0);
    let ghost tail = v@.skip(whole as int);
    if whole < v.len() && v[whole] == '.' {
        assert(tail.skip(1) =~= v@.skip(whole + 1));
        let end: usize = skip_digits(&v, whole + 1);
        let fraction: usize = end - (whole + 1);
        assert(tail.skip(1).skip(fraction as int) =~= v@.skip(end as int));
        (whole > 0 || fraction > 0) && (end == v.len() || exponent_at(&v, end))
    } else {
        whole > 0 && (whole == v.len() || exponent_at(&v, whole))
    }
}

/// A text that denotes a floating-point number.
#[derive(Debug)]
pub struct Numeral {
    text: String,
}

impl View for Numeral {
    type V = Seq<char>;

    closed spec fn view(&self) -> Seq<char> {
        self.text@
    }
}

impl Numeral {
    #[verifier::type_invariant]
    spec fn readable(self) -> bool {
        is_number_text(self.text@)
    }

    /// The text as a numeral, if it denotes a number.
    pub fn new(text: &str) -> (r: Option<Numeral>)
        ensures
            match r {
                Some(n) => is_number_text(text@) && n@ == text@,
                None => !is_number_text(text@),
            },
    {
        if number_text(text) {
            Some(Numeral { text: text.to_owned() })
        } else {
            None
        }
    }

    /// A numeral that is known to denote a number.
    pub fn known(text: &str) -> (r: Numeral)
        requires
            is_number_text(text@),
        ensures
            r@ == text@,
    {
        Numeral { text: text.to_owned() }
    }

    /// The text of the numeral.
    pub fn text(&self) -> (r: &str)
        ensures
            r@ == self@,
            is_number_text(r@),
    {
        proof {
            use_type_invariant(self);
        }
        self.text.as_str()
    }
}

impl Clone for Numeral {
    fn clone(&self) -> (r: Self)
        ensures
            r@ == self@,
    {
        proof {
            use_type_invariant(self);
        }
        Numeral { text: self.text.clone() }
    }
}

/// A number written out: a sign, digits, a point with digits, and an exponent with
/// its mark, sign and digits.
pub open spec fn written(
    sign: Seq<char>,
    whole: Seq<char>,
    fraction: Option<Seq<char>>,
    exponent: Option<(char, Seq<char>, Seq<char>)>,
) -> Seq<char> {
    sign + whole + (match fraction {
        Some(digits) => seq!['.'] + digits,
        None => seq![],
    }) + (match exponent {
        Some((mark, esign, digits)) => seq![mark] + esign + digits,
        None => seq![],
    })
}

/// Nothing but the ten digits.
pub open spec fn digits_only(s: Seq<char>) -> bool {
    forall|i: int| 0 <= i < s.len() ==> '0' <= #[trigger] s[i] <= '9'
}

/// No sign, or one.
pub open spec fn at_most_a_sign(s: Seq<char>) -> bool {
    s == seq!['+'] || s == seq!['-'] || s.len() == 0
}

/// The parts of a number can be written together: the parts hold digits only, there
/// is a digit before or after the point, and one in the exponent.
pub open spec fn well_written(
    sign: Seq<char>,
    whole: Seq<char>,
    fraction: Option<Seq<char>>,
    exponent: Option<(char, Seq<char>, Seq<char>)>,
) -> bool {
    &&& at_most_a_sign(sign)
    &&& digits_only(whole)
    &&& fraction matches Some(digits) ==> digits_only(digits)
    &&& whole.len() > 0 || (fraction matches Some(digits) && digits.len() > 0)
    &&& exponent matches Some((mark, esign, digits)) ==> (mark == 'e' || mark == 'E')
        && at_most_a_sign(esign) && digits_only(digits) && digits.len() > 0
}

/// The point and the digits after it, as they are written.
pub open spec fn fraction_written(fraction: Option<Seq<char>>) -> Seq<char> {
    match fraction {
        Some(digits) => seq!['.'] + digits,
        None => seq![],
    }
}

/// An exponent, as it is written.
pub open spec fn exponent_written(exponent: Option<(char, Seq<char>, Seq<char>)>) -> Seq<char> {
    match exponent {
        Some((mark, esign, digits)) => seq![mark] + esign + digits,
        None => seq![],
    }
}

proof fn lemma_sign_comes_off(sign: Seq<char>, body: Seq<char>)
    requires
        at_most_a_sign(sign),
        body.len() > 0,
        body[0] != '+' && body[0] != '-',
    ensures
        without_sign(sign + body) == body,
{
    let s = sign + body;
    if sign.len() == 0 {
        assert(s =~= body);
    } else {
        assert(s[0] == sign[0]);
        assert(s.skip(1) =~= body);
    }
}

proof fn lemma_exponent_denotes(mark: char, esign: Seq<char>, digits: Seq<char>)
    requires
        mark == 'e' || mark == 'E',
        at_most_a_sign(esign),
        digits_only(digits),
        digits.len() > 0,
    ensures
        is_exponent(seq![mark] + esign + digits),
{
    let exp = seq![mark] + esign + digits;
    assert(exp[0] == mark);
    assert(exp.skip(1) =~= esign + digits);
    assert forall|i: int| 0 <= i < digits.len() implies is_digit(#[trigger] digits[i]) by {
    }
    assert(is_digit(digits[0]));
    lemma_sign_comes_off(esign, digits);
}

proof fn lemma_digits_come_off(digits: Seq<char>, rest: Seq<char>)
    requires
        digits_only(digits),
        rest.len() > 0 ==> !is_digit(rest[0]),
    ensures
        digit_run(digits + rest) == digits.len(),
        (digits + rest).skip(digits.len() as int) == rest,
{
    let s = digits + rest;
    assert forall|i: int| 0 <= i < digits.len() implies is_digit(#[trigger] s[i]) by {
        assert(s[i] == digits[i]);
    }
    if rest.len() > 0 {
        assert(s[digits.len() as int] == rest[0]);
    }
    lemma_digit_run(s, digits.len() as int);
    assert(s.skip(digits.len() as int) =~= rest);
}

proof fn lemma_tail_denotes(whole: nat, fraction: Option<Seq<char>>, exp: Seq<char>)
    requires
        fraction matches Some(digits) ==> digits_only(digits),
        whole > 0 || (fraction matches Some(digits) && digits.len() > 0),
        exp.len() == 0 || is_exponent(exp),
    ensures
        is_number_tail(whole, fraction_written(fraction) + exp),
{
    let tail = fraction_written(fraction) + exp;
    match fraction {
        Some(digits) => {
            assert(tail[0] == '.');
            assert(tail.skip(1) =~= digits + exp);
            lemma_digits_come_off(digits, exp);
        },
        None => {
            assert(tail =~= exp);
        },
    }
}

/// Every number that is written out denotes a number.
pub proof fn written_numbers_denote(
    sign: Seq<char>,
    whole: Seq<char>,
    fraction: Option<Seq<char>>,
    exponent: Option<(char, Seq<char>, Seq<char>)>,
)
    requires
        well_written(sign, whole, fraction, exponent),
    ensures
        is_number_text(written(sign, whole, fraction, exponent)),
{
    let point = fraction_written(fraction);
    let exp = exponent_written(exponent);
    let tail = point + exp;
    let body = whole + tail;
    if let Some((mark, esign, digits)) = exponent {
        lemma_exponent_denotes(mark, esign, digits);
    }
    lemma_tail_denotes(whole.len(), fraction, exp);
    assert(tail.len() > 0 ==> tail[0] == '.' || tail[0] == 'e' || tail[0] == 'E');
    lemma_digits_come_off(whole, tail);
    assert(body.len() > 0 && body[0] != '+' && body[0] != '-') by {
        if whole.len() > 0 {
            assert(body[0] == whole[0]);
        } else {
            assert(body[0] == tail[0]);
        }
    }
    lemma_sign_comes_off(sign, body);
    assert(written(sign, whole, fraction, exponent) =~= sign + body);
}

/// The sign in front of a text.
spec fn sign_of(s: Seq<char>) -> Seq<char> {
    s.take(s.len() - without_sign(s).len())
}

proof fn lemma_sign_of(s: Seq<char>)
    ensures
        at_most_a_sign(sign_of(s)),
        s == sign_of(s) + without_sign(s),
{
    if sign_of(s).len() > 0 {
        assert(sign_of(s) =~= seq![s[0]]);
    }
    assert(s =~= sign_of(s) + without_sign(s));
}

/// The digits that a text begins with.
spec fn digits_of(s: Seq<char>) -> Seq<char> {
    s.take(digit_run(s) as int)
}

proof fn lemma_digits_of(s: Seq<char>)
    ensures
        digits_only(digits_of(s)),
        digits_of(s).len() == digit_run(s),
        s == digits_of(s) + s.skip(digit_run(s) as int),
{
    lemma_run_is_digits(s);
    assert forall|i: int| 0 <= i < digits_of(s).len() implies '0' <= #[trigger] digits_of(s)[i]
        <= '9' by {
        assert(is_digit(s[i]));
    }
    assert(s =~= digits_of(s) + s.skip(digit_run(s) as int));
}

/// The parts of an exponent.
spec fn exponent_of(s: Seq<char>) -> Option<(char, Seq<char>, Seq<char>)> {
    if s.len() > 0 {
        Some((s[0], sign_of(s.skip(1)), without_sign(s.skip(1))))
    } else {
        None
    }
}

proof fn lemma_exponent_of(s: Seq<char>)
    requires
        s.len() == 0 || is_exponent(s),
    ensures
        s == exponent_written(exponent_of(s)),
        exponent_of(s) matches Some((mark, esign, digits)) ==> (mark == 'e' || mark == 'E')
            && at_most_a_sign(esign) && digits_only(digits) && digits.len() > 0,
{
    if s.len() > 0 {
        lemma_sign_of(s.skip(1));
        let digits = without_sign(s.skip(1));
        assert forall|i: int| 0 <= i < digits.len() implies '0' <= #[trigger] digits[i] <= '9' by {
            assert(is_digit(digits[i]));
        }
        assert(s =~= seq![s[0]] + s.skip(1));
        assert(s =~= exponent_written(exponent_of(s)));
    } else {
        assert(s =~= exponent_written(exponent_of(s)));
    }
}

/// The digits after a point, where there is one.
spec fn fraction_of(s: Seq<char>) -> Option<Seq<char>> {
    if s.len() > 0 && s[0] == '.' {
        Some(digits_of(s.skip(1)))
    } else {
        None
    }
}

proof fn lemma_tail_of(whole: nat, s: Seq<char>) -> (exponent: Option<
    (char, Seq<char>, Seq<char>),
>)
    requires
        is_number_tail(whole, s),
    ensures
        s == fraction_written(fraction_of(s)) + exponent_written(exponent),
        fraction_of(s) matches Some(digits) ==> digits_only(digits),
        whole > 0 || (fraction_of(s) matches Some(digits) && digits.len() > 0),
        exponent matches Some((mark, esign, digits)) ==> (mark == 'e' || mark == 'E')
            && at_most_a_sign(esign) && digits_only(digits) && digits.len() > 0,
{
    let pointed = s.len() > 0 && s[0] == '.';
    let rest = if pointed {
        s.skip(1).skip(digit_run(s.skip(1)) as int)
    } else {
        s
    };
    lemma_exponent_of(rest);
    if pointed {
        lemma_digits_of(s.skip(1));
        assert(s =~= seq!['.'] + s.skip(1));
        assert(s =~= fraction_written(fraction_of(s)) + rest);
    } else {
        assert(s =~= fraction_written(fraction_of(s)) + rest);
    }
    exponent_of(rest)
}

/// No other text does, but for a signed or unsigned infinity or not-a-number: every
/// number text is one of these words or a number that is written out.
pub proof fn number_texts_are_written_numbers(s: Seq<char>)
    requires
        is_number_text(s),
    ensures
        ({
            let word = if s.len() > 0 && (s[0] == '+' || s[0] == '-') {
                lower(s.skip(1))
            } else {
                lower(s)
            };
            ||| word == "inf"@
            ||| word == "infinity"@
            ||| word == "nan"@
            ||| exists|
                sign: Seq<char>,
                whole: Seq<char>,
                fraction: Option<Seq<char>>,
                exponent: Option<(char, Seq<char>, Seq<char>)>,
            | #[trigger]
                well_written(sign, whole, fraction, exponent) && s == written(
                    sign,
                    whole,
                    fraction,
                    exponent,
                )
        }),
{
    let body = without_sign(s);
    let tail = body.skip(digit_run(body) as int);
    if is_number_tail(digit_run(body), tail) {
        lemma_sign_of(s);
        lemma_digits_of(body);
        let exponent = lemma_tail_of(digit_run(body), tail);
        assert(well_written(sign_of(s), digits_of(body), fraction_of(tail), exponent));
        assert(s =~= written(sign_of(s), digits_of(body), fraction_of(tail), exponent));
    }
}

/// The words for an infinity and for not-a-number denote, in capitals or not, with
/// or without a sign.
pub proof fn special_words_denote(sign: Seq<char>, word: Seq<char>)
    requires
        at_most_a_sign(sign),
        lower(word) == "inf"@ || lower(word) == "infinity"@ || lower(word) == "nan"@,
    ensures
        is_number_text(sign + word),
{
    reveal_strlit("inf");
    reveal_strlit("infinity");
    reveal_strlit("nan");
    assert(word.len() == lower(word).len());
    assert(lower(word)[0] == 'i' || lower(word)[0] == 'n');
    lemma_sign_comes_off(sign, word);
}

} // verus!
