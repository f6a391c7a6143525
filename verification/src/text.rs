//! Text: building it, comparing it, and the decimal notation of integers.

use vstd::prelude::*;
use vstd::string::*;

verus! {

/// The decimal digit for a value below ten.
pub open spec fn digit_char(d: int) -> char {
    (48 + d) as char
}

/// The decimal notation of a natural number, without leading zeros.
pub open spec fn decimal_nat(n: nat) -> Seq<char>
    decreases n,
{
    if n < 10 {
        seq![digit_char(n as int)]
    } else {
        decimal_nat(n / 10).push(digit_char((n % 10) as int))
    }
}

/// The decimal notation of an integer, with a leading `-` below zero.
pub open spec fn decimal(n: int) -> Seq<char> {
    if n < 0 {
        seq!['-'] + decimal_nat((-n) as nat)
    } else {
        decimal_nat(n as nat)
    }
}

/// The value of a decimal digit, and nothing for any other character.
pub open spec fn digit_value(c: char) -> Option<int> {
    if '0' <= c <= '9' {
        Some(c as int - 48)
    } else {
        None
    }
}

/// Why a text is no integer in a given range.
#[derive(Debug, Clone, Copy, PartialEq, Eq, Structural)]
pub enum IntError {
    Empty,
    InvalidDigit,
    PosOverflow,
    NegOverflow,
}

impl IntError {
    pub open spec fn text(self) -> Seq<char> {
        match self {
            IntError::Empty => "cannot parse integer from empty string"@,
            IntError::InvalidDigit => "invalid digit found in string"@,
            IntError::PosOverflow => "number too large to fit in target type"@,
            IntError::NegOverflow => "number too small to fit in target type"@,
        }
    }

    /// The failure in words.
    pub fn message(&self) -> (r: String)
        ensures
            r@ == self.text(),
    {
        let words = match self {
            IntError::Empty => "cannot parse integer from empty string",
            IntError::InvalidDigit => "invalid digit found in string",
            IntError::PosOverflow => "number too large to fit in target type",
            IntError::NegOverflow => "number too small to fit in target type",
        };
        words.to_owned()
    }
}

/// The integer that a run of digits denotes, counted down from zero when
/// `negative`. The first character that is no digit, or that takes the value
/// out of `lo..=hi`, decides the failure.
pub open spec fn digits_value(s: Seq<char>, negative: bool, lo: int, hi: int) -> Result<
    int,
    IntError,
>
    decreases s.len(),
{
    if s.len() == 0 {
        Ok(0)
    } else {
        match digits_value(s.drop_last(), negative, lo, hi) {
            Err(e) => Err(e),
            Ok(v) => match digit_value(s.last()) {
                None => Err(IntError::InvalidDigit),
                Some(d) => {
                    let w = if negative {
                        v * 10 - d
                    } else {
                        v * 10 + d
                    };
                    if w < lo {
                        Err(IntError::NegOverflow)
                    } else if w > hi {
                        Err(IntError::PosOverflow)
                    } else {
                        Ok(w)
                    }
                },
            },
        }
    }
}

/// The integer within `lo..=hi` that a text denotes: digits after an optional
/// `+`, or after a `-` where the range reaches below zero.
pub open spec fn int_value(s: Seq<char>, lo: int, hi: int) -> Result<int, IntError> {
    if s.len() == 0 {
        Err(IntError::Empty)
    } else if s.len() == 1 && (s[0] == '+' || s[0] == '-') {
        Err(IntError::InvalidDigit)
    } else if s[0] == '+' {
        digits_value(s.skip(1), false, lo, hi)
    } else if s[0] == '-' && lo < 0 {
        digits_value(s.skip(1), true, lo, hi)
    } else {
        digits_value(s, false, lo, hi)
    }
}

/// The characters of a text.
pub fn chars_of(s: &str) -> (r: Vec<char>)
    ensures
        r@ == s@,
{
    let mut out: Vec<char> = Vec::new();
    for c in it: s.chars()
        invariant
            it.seq() == s@,
            out@ =~= s@.take(it.index()),
    {
        out.push(c);
    }
    assert(s@.take(s@.len() as int) =~= s@);
    out
}

fn digit_of(c: char) -> (r: Option<u8>)
    ensures
        r is Some <==> digit_value(c) is Some,
        r matches Some(d) ==> digit_value(c) == Some(d as int) && d < 10,
{
    if '0' <= c && c <= '9' {
        Some((c as u32 - 48) as u8)
    } else {
        None
    }
}

/// Reads an unsigned integer of at most `max`.
pub fn parse_unsigned(s: &str, max: u128) -> (r: Result<u128, IntError>)
    ensures
        r matches Ok(v) ==> int_value(s@, 0, max as int) == Ok::<int, IntError>(v as int) && v
            <= max,
        r matches Err(e) ==> int_value(s@, 0, max as int) == Err::<int, IntError>(e),
{
    let chars = chars_of(s);
    if chars.len() == 0 {
        return Err(IntError::Empty);
    }
    if chars.len() == 1 && (chars[0] == '+' || chars[0] == '-') {
        return Err(IntError::InvalidDigit);
    }
    let start: usize = if chars[0] == '+' {
        1
    } else {
        0
    };
    let ghost body = s@.skip(start as int);
    assert(start == 0 ==> body =~= s@);
    let mut v: u128 = 0;
    let mut i: usize = start;
    while i < chars.len()
        invariant
            start <= i <= chars.len(),
            chars@ == s@,
            body == s@.skip(start as int),
            digits_value(body.take(i - start), false, 0, max as int) == Ok::<int, IntError>(
                v as int,
            ),
            v <= max,
            int_value(s@, 0, max as int) == digits_value(body, false, 0, max as int),
        decreases chars.len() - i,
    {
        let ghost upto = body.take(i - start + 1);
        proof {
            assert(upto.drop_last() =~= body.take(i - start));
            assert(upto.last() == chars@[i as int]);
        }
        match digit_of(chars[i]) {
            None => {
                proof {
                    lemma_digits_fail(body, i - start + 1, false, 0, max as int);
                }
                return Err(IntError::InvalidDigit);
            },
            Some(d) => {
                let wide: Option<u128> = match v.checked_mul(10) {
                    Some(m) => m.checked_add(d as u128),
                    None => None,
                };
                match wide {
                    Some(w) => {
                        if w > max {
                            proof {
                                lemma_digits_fail(body, i - start + 1, false, 0, max as int);
                            }
                            return Err(IntError::PosOverflow);
                        }
                        v = w;
                    },
                    None => {
                        proof {
                            lemma_digits_fail(body, i - start + 1, false, 0, max as int);
                        }
                        return Err(IntError::PosOverflow);
                    },
                }
            },
        }
        i += 1;
    }
    assert(body.take(body.len() as int) =~= body);
    Ok(v)
}

/// Once a prefix fails, the whole run fails in the same way.
proof fn lemma_digits_fail(s: Seq<char>, n: int, negative: bool, lo: int, hi: int)
    requires
        0 <= n <= s.len(),
        digits_value(s.take(n), negative, lo, hi) is Err,
    ensures
        digits_value(s, negative, lo, hi) == digits_value(s.take(n), negative, lo, hi),
    decreases s.len() - n,
{
    if n == s.len() {
        assert(s.take(n) =~= s);
    } else {
        assert(s.take(n + 1).drop_last() =~= s.take(n));
        lemma_digits_fail(s, n + 1, negative, lo, hi);
    }
}

/// Reads a signed integer of at least `min` and at most `max`.
pub fn parse_signed(s: &str, min: i128, max: i128) -> (r: Result<i128, IntError>)
    requires
        min < 0 <= max,
    ensures
        r matches Ok(v) ==> int_value(s@, min as int, max as int) == Ok::<int, IntError>(v as int)
            && min <= v <= max,
        r matches Err(e) ==> int_value(s@, min as int, max as int) == Err::<int, IntError>(e),
{
    let chars = chars_of(s);
    if chars.len() == 0 {
        return Err(IntError::Empty);
    }
    if chars.len() == 1 && (chars[0] == '+' || chars[0] == '-') {
        return Err(IntError::InvalidDigit);
    }
    let negative = chars[0] == '-';
    let start: usize = if chars[0] == '+' || negative {
        1
    } else {
        0
    };
    let ghost body = s@.skip(start as int);
    assert(start == 0 ==> body =~= s@);
    let mut v: i128 = 0;
    let mut i: usize = start;
    while i < chars.len()
        invariant
            start <= i <= chars.len(),
            chars@ == s@,
            body == s@.skip(start as int),
            digits_value(body.take(i - start), negative, min as int, max as int) == Ok::<
                int,
                IntError,
            >(v as int),
            min <= v <= max,
            negative ==> v <= 0,
            !negative ==> v >= 0,
            int_value(s@, min as int, max as int) == digits_value(
                body,
                negative,
                min as int,
                max as int,
            ),
        decreases chars.len() - i,
    {
        let ghost upto = body.take(i - start + 1);
        proof {
            assert(upto.drop_last() =~= body.take(i - start));
            assert(upto.last() == chars@[i as int]);
        }
        match digit_of(chars[i]) {
            None => {
                proof {
                    lemma_digits_fail(body, i - start + 1, negative, min as int, max as int);
                }
                return Err(IntError::InvalidDigit);
            },
            Some(d) => {
                let wide: Option<i128> = match v.checked_mul(10) {
                    Some(m) => if negative {
                        m.checked_sub(d as i128)
                    } else {
                        m.checked_add(d as i128)
                    },
                    None => None,
                };
                match wide {
                    Some(w) => {
                        if w < min {
                            proof {
                                lemma_digits_fail(
                                    body,
                                    i - start + 1,
                                    negative,
                                    min as int,
                                    max as int,
                                );
                            }
                            return Err(IntError::NegOverflow);
                        }
                        if w > max {
                            proof {
                                lemma_digits_fail(
                                    body,
                                    i - start + 1,
                                    negative,
                                    min as int,
                                    max as int,
                                );
                            }
                            return Err(IntError::PosOverflow);
                        }
                        v = w;
                    },
                    None => {
                        proof {
                            lemma_digits_fail(
                                body,
                                i - start + 1,
                                negative,
                                min as int,
                                max as int,
                            );
                        }
                        if negative {
                            return Err(IntError::NegOverflow);
                        }
                        return Err(IntError::PosOverflow);
                    },
                }
            },
        }
        i += 1;
    }
    assert(body.take(body.len() as int) =~= body);
    Ok(v)
}

fn digit_text(d: u8) -> (r: &'static str)
    requires
        d < 10,
    ensures
        r@ == seq![digit_char(d as int)],
{
    proof {
        reveal_strlit("0");
        reveal_strlit("1");
        reveal_strlit("2");
        reveal_strlit("3");
        reveal_strlit("4");
        reveal_strlit("5");
        reveal_strlit("6");
        reveal_strlit("7");
        reveal_strlit("8");
        reveal_strlit("9");
    }
    let r = if d == 0 {
        "0"
    } else if d == 1 {
        "1"
    } else if d == 2 {
        "2"
    } else if d == 3 {
        "3"
    } else if d == 4 {
        "4"
    } else if d == 5 {
        "5"
    } else if d == 6 {
        "6"
    } else if d == 7 {
        "7"
    } else if d == 8 {
        "8"
    } else {
        "9"
    };
    assert(r@ =~= seq![digit_char(d as int)]);
    r
}

/// The decimal notation of an unsigned integer.
pub fn unsigned_text(n: u128) -> (r: String)
    ensures
        r@ == decimal(n as int),
    decreases n,
{
    if n < 10 {
        digit_text(n as u8).to_owned()
    } else {
        let mut r = unsigned_text(n / 10);
        r.append(digit_text((n % 10) as u8));
        assert(r@ =~= decimal_nat((n / 10) as nat).push(digit_char((n % 10) as int)));
        r
    }
}

/// The decimal notation of a signed integer.
pub fn signed_text(n: i128) -> (r: String)
    ensures
        r@ == decimal(n as int),
{
    if n < 0 {
        proof {
            reveal_strlit("-");
        }
        let mut r = "-".to_owned();
        let size: u128 = (-(n + 1)) as u128 + 1;
        r.append(unsigned_text(size).as_str());
        assert("-"@ =~= seq!['-']);
        r
    } else {
        unsigned_text(n as u128)
    }
}

/// The decimal notation of a number is read back as that number.
pub proof fn law_decimal_is_read_back(n: int, lo: int, hi: int)
    requires
        lo <= n <= hi,
        lo <= 0 <= hi,
    ensures
        int_value(decimal(n), lo, hi) == Ok::<int, IntError>(n),
{
    let m = if n < 0 {
        (-n) as nat
    } else {
        n as nat
    };
    lemma_decimal_digits(m, n < 0, lo, hi);
    lemma_decimal_nonempty(m);
    if n < 0 {
        assert(decimal(n).skip(1) =~= decimal_nat(m));
    }
}

proof fn lemma_decimal_nonempty(n: nat)
    ensures
        decimal_nat(n).len() >= 1,
        '0' <= decimal_nat(n)[0] <= '9',
    decreases n,
{
    if n >= 10 {
        lemma_decimal_nonempty(n / 10);
    }
}

proof fn lemma_decimal_digits(n: nat, negative: bool, lo: int, hi: int)
    requires
        lo <= 0 <= hi,
        negative ==> lo <= -(n as int),
        !negative ==> n <= hi,
    ensures
        digits_value(decimal_nat(n), negative, lo, hi) == Ok::<int, IntError>(
            if negative {
                -(n as int)
            } else {
                n as int
            },
        ),
    decreases n,
{
    reveal_with_fuel(digits_value, 2);
    let s = decimal_nat(n);
    if n >= 10 {
        lemma_decimal_digits(n / 10, negative, lo, hi);
        assert(s.drop_last() =~= decimal_nat(n / 10));
    } else {
        assert(s.drop_last() =~= Seq::<char>::empty());
    }
}

/// Whether two texts are the same.
pub fn text_eq(a: &str, b: &str) -> (r: bool)
    ensures
        r == (a@ == b@),
{
    a.to_owned() == b.to_owned()
}

/// Two texts in a row.
pub fn cat2(a: &str, b: &str) -> (r: String)
    ensures
        r@ == a@ + b@,
{
    let mut r = a.to_owned();
    r.append(b);
    r
}

/// Three texts in a row.
pub fn cat3(a: &str, b: &str, c: &str) -> (r: String)
    ensures
        r@ == a@ + b@ + c@,
{
    let mut r = a.to_owned();
    r.append(b);
    r.append(c);
    r
}

/// Four texts in a row.
pub fn cat4(a: &str, b: &str, c: &str, d: &str) -> (r: String)
    ensures
        r@ == a@ + b@ + c@ + d@,
{
    let mut r = a.to_owned();
    r.append(b);
    r.append(c);
    r.append(d);
    r
}

/// Five texts in a row.
pub fn cat5(a: &str, b: &str, c: &str, d: &str, e: &str) -> (r: String)
    ensures
        r@ == a@ + b@ + c@ + d@ + e@,
{
    let mut r = a.to_owned();
    r.append(b);
    r.append(c);
    r.append(d);
    r.append(e);
    r
}

/// Six texts in a row.
pub fn cat6(a: &str, b: &str, c: &str, d: &str, e: &str, f: &str) -> (r: String)
    ensures
        r@ == a@ + b@ + c@ + d@ + e@ + f@,
{
    let mut r = a.to_owned();
    r.append(b);
    r.append(c);
    r.append(d);
    r.append(e);
    r.append(f);
    r
}

/// Seven texts in a row.
pub fn cat7(a: &str, b: &str, c: &str, d: &str, e: &str, f: &str, g: &str) -> (r: String)
    ensures
        r@ == a@ + b@ + c@ + d@ + e@ + f@ + g@,
{
    let mut r = a.to_owned();
    r.append(b);
    r.append(c);
    r.append(d);
    r.append(e);
    r.append(f);
    r.append(g);
    r
}

/// Whether `part` stands somewhere in `s`.
pub open spec fn has_part(s: Seq<char>, part: Seq<char>) -> bool {
    exists|i: int|
        0 <= i <= s.len() - part.len() && #[trigger] s.subrange(i, i + part.len()) == part
}

/// Whether `part` stands somewhere in `s`.
pub fn contains(s: &str, part: &str) -> (r: bool)
    ensures
        r == has_part(s@, part@),
{
    let text = chars_of(s);
    let wanted = chars_of(part);
    if wanted.len() > text.len() {
        return false;
    }
    let last: usize = text.len() - wanted.len();
    let mut i: usize = 0;
    loop
        invariant
            text@ == s@,
            wanted@ == part@,
            last == text@.len() - wanted@.len(),
            text@.len() <= usize::MAX,
            i <= last,
            forall|k: int|
                0 <= k < i ==> #[trigger] s@.subrange(k, k + part@.len()) != part@,
        decreases last - i,
    {
        let mut j: usize = 0;
        while j < wanted.len() && text[i + j] == wanted[j]
            invariant
                text@ == s@,
                wanted@ == part@,
                i + wanted@.len() <= text@.len() <= usize::MAX,
                j <= wanted@.len(),
                forall|k: int| 0 <= k < j ==> #[trigger] wanted@[k] == text@[i + k],
            decreases wanted@.len() - j,
        {
            j += 1;
        }
        if j == wanted.len() {
            assert(s@.subrange(i as int, i + part@.len()) =~= part@);
            return true;
        }
        assert(s@.subrange(i as int, i + part@.len())[j as int] != part@[j as int]);
        if i == last {
            return false;
        }
        i += 1;
    }
}

/// The characters with the Unicode property `White_Space`.
pub open spec fn is_white_space(c: char) -> bool {
    let n = c as int;
    ||| 0x9 <= n <= 0xd
    ||| n == 0x20
    ||| n == 0x85
    ||| n == 0xa0
    ||| n == 0x1680
    ||| 0x2000 <= n <= 0x200a
    ||| n == 0x2028
    ||| n == 0x2029
    ||| n == 0x202f
    ||| n == 0x205f
    ||| n == 0x3000
}

/// A text without the white space at its two ends.
pub open spec fn trimmed(s: Seq<char>) -> Seq<char>
    decreases s.len(),
{
    if s.len() > 0 && is_white_space(s[0]) {
        trimmed(s.skip(1))
    } else if s.len() > 0 && is_white_space(s.last()) {
        trimmed(s.drop_last())
    } else {
        s
    }
}

/// `str::trim`: the text without leading and trailing characters that have the
/// Unicode property `White_Space`.
#[verifier::external_body]
pub(crate) fn trim(s: &str) -> (r: String)
    ensures
        r@ == trimmed(s@),
{
    s.trim().to_string()
}

/// The lower-case letter of an ASCII letter, and any other character as it is.
pub open spec fn ascii_lower(c: char) -> char {
    if 'A' <= c <= 'Z' {
        (c as int + 32) as char
    } else {
        c
    }
}

/// A text with its ASCII letters in lower case.
pub open spec fn lowered_ascii(s: Seq<char>) -> Seq<char> {
    Seq::new(s.len(), |i: int| ascii_lower(s[i]))
}

/// What `str::to_lowercase` makes of a text that is not all ASCII.
pub uninterp spec fn lowered_beyond_ascii(s: Seq<char>) -> Seq<char>;

/// A text in lower case.
pub open spec fn lowercase(s: Seq<char>) -> Seq<char> {
    if vstd::utf8::is_ascii_chars(s) {
        lowered_ascii(s)
    } else {
        lowered_beyond_ascii(s)
    }
}

/// `str::to_lowercase`. Of a text in ASCII it lowers each letter in place;
/// beyond ASCII nothing is said but that the result depends on the text alone.
#[verifier::external_body]
pub(crate) fn to_lowercase(s: &str) -> (r: String)
    ensures
        r@ == if vstd::utf8::is_ascii_chars(s@) {
            lowered_ascii(s@)
        } else {
            lowered_beyond_ascii(s@)
        },
{
    s.to_lowercase()
}

} // verus!
