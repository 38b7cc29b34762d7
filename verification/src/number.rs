//! Numbers as text: unsigned decimal numbers the way `str::parse` reads them
//! and `Display` writes them, and two-digit hexadecimal bytes.
use vstd::prelude::*;

verus! {

/// A decimal digit.
pub open spec fn is_digit(c: char) -> bool {
    '0' <= c && c <= '9'
}

/// The value of a decimal digit.
pub open spec fn digit_of(c: char) -> int {
    c as int - '0' as int
}

/// Whether every character is a decimal digit.
pub open spec fn all_digits(s: Seq<char>) -> bool {
    forall|i: int| 0 <= i < s.len() ==> is_digit(#[trigger] s[i])
}

/// The number a sequence of digits stands for.
pub open spec fn decimal_value(s: Seq<char>) -> int
    decreases s.len(),
{
    if s.len() == 0 {
        0
    } else {
        decimal_value(s.drop_last()) * 10 + digit_of(s.last())
    }
}

/// A text without one leading plus sign.
pub open spec fn unsigned_body(s: Seq<char>) -> Seq<char> {
    if s.len() > 0 && s[0] == '+' {
        s.skip(1)
    } else {
        s
    }
}

/// The number a text stands for: one or more digits, after at most one plus
/// sign, of a value up to `max`.
pub open spec fn decimal_number(s: Seq<char>, max: int) -> Option<int> {
    let body = unsigned_body(s);
    if body.len() > 0 && all_digits(body) && decimal_value(body) <= max {
        Some(decimal_value(body))
    } else {
        None
    }
}

/// The decimal text of a number, without leading zeros.
pub open spec fn decimal_text(n: nat) -> Seq<char>
    decreases n,
{
    let last = (48 + n % 10) as char;
    if n < 10 {
        seq![last]
    } else {
        decimal_text(n / 10).push(last)
    }
}

/// Digits in front only make a number larger.
proof fn lemma_prefix_value(s: Seq<char>, n: int)
    requires
        all_digits(s),
        0 <= n <= s.len(),
    ensures
        0 <= decimal_value(s.take(n)) <= decimal_value(s),
    decreases s.len() - n,
{
    if n < s.len() {
        lemma_prefix_value(s, n + 1);
        assert(s.take(n + 1).drop_last() =~= s.take(n));
        assert(s.take(n + 1).last() == s[n]);
        lemma_value_nonnegative(s.take(n));
    } else {
        assert(s.take(n) =~= s);
        lemma_value_nonnegative(s);
    }
}

proof fn lemma_value_nonnegative(s: Seq<char>)
    requires
        all_digits(s),
    ensures
        decimal_value(s) >= 0,
    decreases s.len(),
{
    if s.len() > 0 {
        assert(is_digit(s[s.len() - 1]));
        assert forall|i: int| 0 <= i < s.drop_last().len() implies is_digit(
            #[trigger] s.drop_last()[i],
        ) by {
            assert(s.drop_last()[i] == s[i]);
        }
        lemma_value_nonnegative(s.drop_last());
    }
}

/// The number the characters `chars[from..to]` stand for, if it is at most
/// `max`.
pub fn parse_decimal(chars: &Vec<char>, from: usize, to: usize, max: u64) -> (r: Option<u64>)
    requires
        from <= to <= chars@.len(),
    ensures
        match r {
            Some(v) => decimal_number(chars@.subrange(from as int, to as int), max as int) == Some(
                v as int,
            ),
            None => decimal_number(chars@.subrange(from as int, to as int), max as int) is None,
        },
{
    let ghost whole = chars@.subrange(from as int, to as int);
    let start: usize = if from < to && chars[from] == '+' {
        from + 1
    } else {
        from
    };
    let ghost body = unsigned_body(whole);
    proof {
        assert(body =~= chars@.subrange(start as int, to as int));
    }
    if start == to {
        return None;
    }
    let mut v: u64 = 0;
    let mut i: usize = start;
    while i < to
        invariant
            start <= i <= to <= chars@.len(),
            body == chars@.subrange(start as int, to as int),
            body == unsigned_body(whole),
            whole == chars@.subrange(from as int, to as int),
            all_digits(body.take(i - start)),
            v == decimal_value(body.take(i - start)),
            v <= max,
        decreases to - i,
    {
        let c: char = chars[i];
        proof {
            assert(body[i - start] == c);
            assert(body.take(i + 1 - start).drop_last() =~= body.take(i - start));
            assert(body.take(i + 1 - start).last() == c);
        }
        if c < '0' || c > '9' {
            proof {
                assert(!is_digit(body[i - start]));
            }
            return None;
        }
        let digit: u64 = (c as u32 - 48) as u64;
        proof {
            if all_digits(body) {
                lemma_prefix_value(body, i + 1 - start);
            }
        }
        if v > max / 10 || digit > max - v * 10 {
            proof {
                assert(decimal_value(body.take(i + 1 - start)) == v * 10 + digit);
                assert(v * 10 + digit > max);
            }
            return None;
        }
        v = v * 10 + digit;
        proof {
            assert forall|j: int| 0 <= j < i + 1 - start implies is_digit(
                #[trigger] body.take(i + 1 - start)[j],
            ) by {
                if j < i - start {
                    assert(body.take(i - start)[j] == body[j]);
                }
            }
        }
        i = i + 1;
    }
    proof {
        assert(body.take(to - start) =~= body);
    }
    Some(v)
}

/// Append the decimal text of `n`.
pub fn push_decimal(out: &mut String, n: u64)
    ensures
        final(out)@ == old(out)@ + decimal_text(n as nat),
    decreases n,
{
    if n >= 10 {
        push_decimal(out, n / 10);
    }
    let code: u32 = 48 + (n % 10) as u32;
    let ghost before = out@;
    match char::from_u32(code) {
        Some(c) => {
            proof {
                vstd::utf8::char_u32_cast(c, code);
            }
            out.push(c);
        },
        None => {},
    }
    proof {
        if n >= 10 {
            assert(before.push((48 + n as nat % 10) as char) =~= old(out)@ + decimal_text(
                n as nat / 10,
            ).push((48 + n as nat % 10) as char));
        } else {
            assert(before.push((48 + n as nat % 10) as char) =~= old(out)@ + seq![
                (48 + n as nat % 10) as char,
            ]);
        }
    }
}

/// The decimal text of `n`.
pub fn decimal(n: u64) -> (r: String)
    ensures
        r@ == decimal_text(n as nat),
{
    let mut out = String::new();
    push_decimal(&mut out, n);
    proof {
        assert(Seq::<char>::empty() + decimal_text(n as nat) =~= decimal_text(n as nat));
    }
    out
}

/// The decimal text of a number is digits only, and stands for that number.
pub proof fn lemma_decimal_text(n: nat)
    ensures
        decimal_text(n).len() > 0,
        all_digits(decimal_text(n)),
        decimal_value(decimal_text(n)) == n,
    decreases n,
{
    let s = decimal_text(n);
    let d = (48 + n % 10) as char;
    assert(digit_of(d) == n % 10);
    assert(is_digit(d));
    if n >= 10 {
        lemma_decimal_text(n / 10);
        let head = decimal_text(n / 10);
        assert(s.drop_last() =~= head);
        assert(s.last() == d);
        assert forall|i: int| 0 <= i < s.len() implies is_digit(#[trigger] s[i]) by {
            if i < head.len() {
                assert(s[i] == head[i]);
            }
        }
    } else {
        assert(s.drop_last() =~= Seq::<char>::empty());
        assert(decimal_value(s.drop_last()) == 0);
    }
}

/// Reading back the decimal text of a number gives that number.
pub proof fn law_decimal_round_trips(n: nat, max: int)
    requires
        n <= max,
    ensures
        decimal_number(decimal_text(n), max) == Some(n as int),
{
    lemma_decimal_text(n);
    assert(is_digit(decimal_text(n)[0]));
}

/// A hexadecimal digit of either case.
pub open spec fn is_hex(c: char) -> bool {
    ||| '0' <= c && c <= '9'
    ||| 'a' <= c && c <= 'f'
    ||| 'A' <= c && c <= 'F'
}

/// The value of a hexadecimal digit.
pub open spec fn hex_of(c: char) -> int {
    if '0' <= c && c <= '9' {
        c as int - '0' as int
    } else if 'a' <= c && c <= 'f' {
        c as int - 'a' as int + 10
    } else {
        c as int - 'A' as int + 10
    }
}

/// The number a sequence of hexadecimal digits stands for.
pub open spec fn hex_value(s: Seq<char>) -> int
    decreases s.len(),
{
    if s.len() == 0 {
        0
    } else {
        hex_value(s.drop_last()) * 16 + hex_of(s.last())
    }
}

/// The lower-case hexadecimal digit of a value below 16.
pub open spec fn hex_char(v: int) -> char {
    if v < 10 {
        (48 + v) as char
    } else {
        (87 + v) as char
    }
}

/// The value of a hexadecimal digit, or `None` for any other character.
pub fn hex_digit(c: char) -> (r: Option<u32>)
    ensures
        r is Some <==> is_hex(c),
        r matches Some(v) ==> v == hex_of(c) && v < 16,
{
    if '0' <= c && c <= '9' {
        Some(c as u32 - 48)
    } else if 'a' <= c && c <= 'f' {
        Some(c as u32 - 97 + 10)
    } else if 'A' <= c && c <= 'F' {
        Some(c as u32 - 65 + 10)
    } else {
        None
    }
}

/// Append the two lower-case hexadecimal digits of a byte.
pub fn push_hex_byte(out: &mut String, v: u8)
    ensures
        final(out)@ == old(out)@.push(hex_char(v as int / 16)).push(hex_char(v as int % 16)),
{
    push_hex_digit(out, v / 16);
    push_hex_digit(out, v % 16);
}

fn push_hex_digit(out: &mut String, v: u8)
    requires
        v < 16,
    ensures
        final(out)@ == old(out)@.push(hex_char(v as int)),
{
    let code: u32 = if v < 10 {
        48 + v as u32
    } else {
        87 + v as u32
    };
    match char::from_u32(code) {
        Some(c) => {
            proof {
                vstd::utf8::char_u32_cast(c, code);
            }
            out.push(c);
        },
        None => {},
    }
}

/// A digit written for a value stands for that value.
pub proof fn lemma_hex_char(v: int)
    requires
        0 <= v < 16,
    ensures
        is_hex(hex_char(v)),
        hex_of(hex_char(v)) == v,
{
}

/// One more digit.
pub proof fn lemma_hex_push(s: Seq<char>, c: char)
    ensures
        hex_value(s.push(c)) == hex_value(s) * 16 + hex_of(c),
{
    assert(s.push(c).drop_last() =~= s);
}

/// The lower-case hexadecimal text of a number, without leading zeros.
pub open spec fn hex_text(n: nat) -> Seq<char>
    decreases n,
{
    if n < 16 {
        seq![hex_char(n as int)]
    } else {
        hex_text(n / 16).push(hex_char(n as int % 16))
    }
}

/// Append the hexadecimal text of `n`.
pub fn push_hex(out: &mut String, n: u64)
    ensures
        final(out)@ == old(out)@ + hex_text(n as nat),
    decreases n,
{
    if n >= 16 {
        push_hex(out, n / 16);
    }
    let ghost before = out@;
    push_hex_digit(out, (n % 16) as u8);
    proof {
        let d = hex_char(n as int % 16);
        if n >= 16 {
            assert(before.push(d) =~= old(out)@ + hex_text(n as nat / 16).push(d));
        } else {
            assert(before.push(d) =~= old(out)@ + seq![d]);
        }
    }
}

/// The hexadecimal text of a number is hexadecimal digits only, and stands for
/// that number.
pub proof fn lemma_hex_text(n: nat)
    ensures
        hex_text(n).len() > 0,
        forall|i: int| 0 <= i < hex_text(n).len() ==> is_hex(#[trigger] hex_text(n)[i]),
        hex_value(hex_text(n)) == n,
    decreases n,
{
    lemma_hex_char(n as int % 16);
    if n >= 16 {
        lemma_hex_text(n / 16);
        let head = hex_text(n / 16);
        let d = hex_char(n as int % 16);
        lemma_hex_push(head, d);
        assert forall|i: int| 0 <= i < hex_text(n).len() implies is_hex(
            #[trigger] hex_text(n)[i],
        ) by {
            if i < head.len() {
                assert(hex_text(n)[i] == head[i]);
            }
        }
    } else {
        let d = hex_char(n as int);
        lemma_hex_push(Seq::empty(), d);
        assert(hex_text(n) =~= Seq::<char>::empty().push(d));
        assert(hex_value(Seq::<char>::empty()) == 0);
    }
}

/// The number a string stands for, if it is at most `max`.
pub fn parse_number(s: &str, max: u64) -> (r: Option<u64>)
    ensures
        match r {
            Some(v) => decimal_number(s@, max as int) == Some(v as int),
            None => decimal_number(s@, max as int) is None,
        },
{
    let chars = crate::text::chars_of(s);
    proof {
        assert(chars@.subrange(0, chars@.len() as int) =~= chars@);
    }
    parse_decimal(&chars, 0, chars.len(), max)
}

/// What digits stand for, digit by digit: nothing is zero, and each further
/// digit counts ten times, or sixteen times, what is in front of it.
pub proof fn law_digits_count_by_their_place(s: Seq<char>, c: char)
    ensures
        decimal_value(Seq::empty()) == 0,
        decimal_value(s.push(c)) == 10 * decimal_value(s) + (c as int - 48),
        hex_value(Seq::empty()) == 0,
        48 <= c as int <= 57 ==> hex_value(s.push(c)) == 16 * hex_value(s) + (c as int - 48),
        97 <= c as int <= 102 ==> hex_value(s.push(c)) == 16 * hex_value(s) + (c as int - 87),
        65 <= c as int <= 70 ==> hex_value(s.push(c)) == 16 * hex_value(s) + (c as int - 55),
        is_digit(c) <==> 48 <= c as int <= 57,
        is_hex(c) <==> 48 <= c as int <= 57 || 97 <= c as int <= 102 || 65 <= c as int <= 70,
{
    assert(s.push(c).drop_last() =~= s);
}

/// A number is written in decimal digits, or in hexadecimal ones in lower case,
/// without a zero in front.
pub proof fn law_numbers_are_written_plainly(n: nat)
    ensures
        decimal_text(n).len() > 0,
        forall|i: int| 0 <= i < decimal_text(n).len() ==> 48 <= #[trigger] decimal_text(n)[i] as int
            <= 57,
        n > 0 ==> decimal_text(n)[0] != '0',
        decimal_value(decimal_text(n)) == n,
        decimal_text(n).len() == 1 <==> n < 10,
        decimal_text(n).len() == 2 <==> 10 <= n < 100,
        hex_text(n).len() > 0,
        forall|i: int|
            0 <= i < hex_text(n).len() ==> 48 <= #[trigger] hex_text(n)[i] as int <= 57 || 97
                <= hex_text(n)[i] as int <= 102,
        n > 0 ==> hex_text(n)[0] != '0',
        hex_value(hex_text(n)) == n,
    decreases n,
{
    lemma_decimal_text(n);
    lemma_hex_text(n);
    if n >= 10 {
        law_numbers_are_written_plainly(n / 10);
        assert(decimal_text(n)[0] == decimal_text(n / 10)[0]);
    }
    assert forall|i: int| 0 <= i < decimal_text(n).len() implies 48 <= #[trigger] decimal_text(
        n,
    )[i] as int <= 57 by {
        assert(is_digit(decimal_text(n)[i]));
    }
    if n >= 16 {
        let head = hex_text(n / 16);
        law_numbers_are_written_plainly(n / 16);
        assert(hex_text(n)[0] == head[0]);
        assert forall|i: int| 0 <= i < hex_text(n).len() implies 48 <= #[trigger] hex_text(
            n,
        )[i] as int <= 57 || 97 <= hex_text(n)[i] as int <= 102 by {
            if i < head.len() {
                assert(hex_text(n)[i] == head[i]);
            }
        }
    }
}

/// A text stands for a number exactly where it is that number's digits, with any
/// zeros and at most one plus sign in front, and the number is not too large.
pub proof fn law_only_digits_are_numbers(s: Seq<char>, max: int)
    ensures
        decimal_number(s, max) is Some ==> s.len() > 0 && (s[0] == '+' || 48 <= s[0] as int <= 57)
            && (s[0] == '+' ==> s.len() > 1) && forall|i: int|
            1 <= i < s.len() ==> 48 <= #[trigger] s[i] as int <= 57,
        decimal_number(s, max) matches Some(v) ==> 0 <= v <= max,
        s.len() > 0 && s[0] != '+' && (forall|i: int|
            0 <= i < s.len() ==> 48 <= #[trigger] s[i] as int <= 57) ==> {
            &&& decimal_number(s, max) == if decimal_value(s) <= max {
                Some(decimal_value(s))
            } else {
                None
            }
            &&& decimal_number(seq!['+'] + s, max) == decimal_number(s, max)
        },
{
    let body = unsigned_body(s);
    if decimal_number(s, max) is Some {
        lemma_value_nonnegative(body);
        assert(is_digit(body[0]));
        assert forall|i: int| 1 <= i < s.len() implies 48 <= #[trigger] s[i] as int <= 57 by {
            if s[0] == '+' {
                assert(body[i - 1] == s[i]);
                assert(is_digit(body[i - 1]));
            } else {
                assert(is_digit(body[i]));
            }
        }
    }
    if s.len() > 0 && s[0] != '+' && (forall|i: int|
        0 <= i < s.len() ==> 48 <= #[trigger] s[i] as int <= 57) {
        assert(all_digits(s));
        assert((seq!['+'] + s).skip(1) =~= s);
    }
}

} // verus!
