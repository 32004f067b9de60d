use crate::error::{ValidationError, ValidationFailure};
use crate::text::chars_of;
use vstd::prelude::*;
use vstd::string::{StrSliceExecFns, StringExecFns};

verus! {

/// Whether `c` is one of the ten decimal digits `0` to `9`.
pub open spec fn is_digit(c: char) -> bool {
    '0' <= c && c <= '9'
}

/// The number that the decimal digit `c` stands for.
pub open spec fn digit_value(c: char) -> int {
    c as int - '0' as int
}

/// Whether every character of `s` is a decimal digit.
pub open spec fn all_digits(s: Seq<char>) -> bool {
    forall|i: int| 0 <= i < s.len() ==> is_digit(#[trigger] s[i])
}

/// The number written by the digits of `s`, read in base ten.
pub open spec fn digits_value(s: Seq<char>) -> int
    decreases s.len(),
{
    if s.len() == 0 {
        0
    } else {
        10 * digits_value(s.drop_last()) + digit_value(s.last())
    }
}

/// Whether `s` starts with a sign character.
pub open spec fn has_sign(s: Seq<char>) -> bool {
    s.len() > 0 && (s[0] == '+' || s[0] == '-')
}

/// What is left of `s` once a leading sign has been taken off.
pub open spec fn unsigned_part(s: Seq<char>) -> Seq<char> {
    if has_sign(s) {
        s.skip(1)
    } else {
        s
    }
}

/// The integer that `s` writes in base ten: an optional `+` or `-`, then one
/// or more digits and nothing else. `None` where `s` has another shape.
pub open spec fn integer_text_value(s: Seq<char>) -> Option<int> {
    let body = unsigned_part(s);
    if body.len() == 0 || !all_digits(body) {
        None
    } else if s[0] == '-' {
        Some(-digits_value(body))
    } else {
        Some(digits_value(body))
    }
}

/// The 32-bit signed integer that `s` writes, `None` where `s` is no integer
/// text or its value does not fit.
pub open spec fn parse_i32(s: Seq<char>) -> Option<i32> {
    match integer_text_value(s) {
        Some(v) => if i32::MIN <= v <= i32::MAX {
            Some(v as i32)
        } else {
            None
        },
        None => None,
    }
}

/// A longer run of digits never writes a smaller number than its prefix.
pub proof fn lemma_digits_value_grows(s: Seq<char>, n: int)
    requires
        all_digits(s),
        0 <= n <= s.len(),
    ensures
        0 <= digits_value(s.take(n)) <= digits_value(s),
    decreases s.len() - n,
{
    lemma_digits_value_nonnegative(s.take(n));
    if n == s.len() {
        assert(s.take(n) =~= s);
    } else {
        lemma_digits_value_grows(s, n + 1);
        let longer = s.take(n + 1);
        assert(longer.drop_last() =~= s.take(n));
    }
}

/// A run of digits writes a number that is not negative.
pub proof fn lemma_digits_value_nonnegative(s: Seq<char>)
    requires
        all_digits(s),
    ensures
        0 <= digits_value(s),
    decreases s.len(),
{
    if s.len() > 0 {
        lemma_digits_value_nonnegative(s.drop_last());
    }
}

fn digit_of(c: char) -> (d: Option<u8>)
    ensures
        match d {
            Some(v) => is_digit(c) && v == digit_value(c),
            None => !is_digit(c),
        },
{
    if '0' <= c && c <= '9' {
        Some(((c as u32) - ('0' as u32)) as u8)
    } else {
        None
    }
}

/// Reads the characters of `chars` from `start` up to `end` as a 32-bit signed
/// integer in base ten.
fn parse_i32_in(chars: &Vec<char>, start: usize, end: usize) -> (r: Option<i32>)
    requires
        start <= end <= chars.len(),
    ensures
        r == parse_i32(chars@.subrange(start as int, end as int)),
{
    let ghost text = chars@.subrange(start as int, end as int);
    let signed = start < end && (chars[start] == '+' || chars[start] == '-');
    let negative = start < end && chars[start] == '-';
    let first: usize = if signed {
        start + 1
    } else {
        start
    };
    let ghost body = unsigned_part(text);
    if first == end {
        return None;
    }
    let mut acc: i64 = 0;
    let mut i: usize = first;
    while i < end
        invariant
            start <= first <= i <= end <= chars.len(),
            text == chars@.subrange(start as int, end as int),
            body == unsigned_part(text),
            body == chars@.subrange(first as int, end as int),
            all_digits(body.take(i - first)),
            acc == digits_value(body.take(i - first)),
            0 <= acc <= 2147483648,
        decreases end - i,
    {
        let ghost seen = body.take(i - first);
        let ghost next = body.take(i - first + 1);
        assert(next.drop_last() =~= seen);
        match digit_of(chars[i]) {
            None => {
                assert(!is_digit(body[i - first]));
                return None;
            },
            Some(d) => {
                assert(all_digits(next));
                acc = acc * 10 + d as i64;
                if acc > 2147483648 {
                    proof {
                        if all_digits(body) {
                            lemma_digits_value_grows(body, i - first + 1);
                        }
                    }
                    return None;
                }
            },
        }
        i = i + 1;
    }
    assert(body.take(end - first) =~= body);
    if negative {
        Some((-acc) as i32)
    } else if acc == 2147483648 {
        None
    } else {
        Some(acc as i32)
    }
}

/// Reads `int_str` as a 32-bit signed integer in base ten: an optional sign,
/// then digits only. Anything else is handed back in the error as it came.
pub fn validate_int(int_str: &str) -> (r: Result<i32, ValidationError>)
    ensures
        match r {
            Ok(n) => parse_i32(int_str@) == Some(n),
            Err(e) => parse_i32(int_str@) is None && e@ == ValidationFailure::InvalidInteger(
                int_str@,
            ),
        },
{
    let chars = chars_of(int_str);
    assert(chars@.subrange(0, chars@.len() as int) =~= int_str@);
    match parse_i32_in(&chars, 0, chars.len()) {
        Some(n) => Ok(n),
        None => Err(ValidationError::InvalidInteger(String::from_str(int_str))),
    }
}

/// The number of characters of `s` that stand before its first comma: all of
/// them where it has none.
pub open spec fn first_comma(s: Seq<char>) -> int
    decreases s.len(),
{
    if s.len() == 0 || s[0] == ',' {
        0
    } else {
        1 + first_comma(s.skip(1))
    }
}

/// The pieces that the commas of `s` part it into, in order. A text without a
/// comma is one piece, the empty text too.
pub open spec fn comma_separated(s: Seq<char>) -> Seq<Seq<char>>
    decreases s.len(),
{
    let k = first_comma(s);
    if 0 <= k < s.len() {
        seq![s.take(k)] + comma_separated(s.skip(k + 1))
    } else {
        seq![s]
    }
}

/// The texts of `parts` written one after the other with a comma between
/// each two.
pub open spec fn joined_by_commas(parts: Seq<Seq<char>>) -> Seq<char>
    decreases parts.len(),
{
    if parts.len() == 0 {
        Seq::empty()
    } else if parts.len() == 1 {
        parts[0]
    } else {
        parts[0] + seq![','] + joined_by_commas(parts.skip(1))
    }
}

/// The pieces of a text are what stands between its commas: there is at
/// least one piece, no piece holds a comma, and the pieces written with
/// commas between them are the text again.
pub proof fn law_comma_separated(s: Seq<char>)
    ensures
        comma_separated(s).len() >= 1,
        forall|i: int, j: int|
            0 <= i < comma_separated(s).len() && 0 <= j < comma_separated(s)[i].len()
                ==> #[trigger] comma_separated(s)[i][j] != ',',
        joined_by_commas(comma_separated(s)) == s,
    decreases s.len(),
{
    let k = first_comma(s);
    lemma_first_comma(s);
    if k < s.len() {
        let rest = s.skip(k + 1);
        let all = comma_separated(s);
        law_comma_separated(rest);
        assert(all.skip(1) =~= comma_separated(rest));
        assert(forall|i: int, j: int|
            0 <= i < all.len() && 0 <= j < all[i].len() ==> #[trigger] all[i][j] != ',');
    }
}

/// The first comma of `s` stands within `s` or at its end, no comma stands
/// before it, and where it stands within `s` a comma stands there.
pub proof fn lemma_first_comma(s: Seq<char>)
    ensures
        0 <= first_comma(s) <= s.len(),
        forall|j: int| 0 <= j < first_comma(s) ==> s[j] != ',',
        first_comma(s) < s.len() ==> s[first_comma(s)] == ',',
    decreases s.len(),
{
    if s.len() > 0 && s[0] != ',' {
        let tail = s.skip(1);
        lemma_first_comma(tail);
        assert forall|j: int| 0 <= j < first_comma(s) implies s[j] != ',' by {
            if j > 0 {
                assert(tail[j - 1] == s[j]);
            }
        }
    }
}

/// The first of `parts` that is no 32-bit integer text, `None` where each is one.
pub open spec fn first_non_integer(parts: Seq<Seq<char>>) -> Option<Seq<char>>
    decreases parts.len(),
{
    if parts.len() == 0 {
        None
    } else if parse_i32(parts[0]) is None {
        Some(parts[0])
    } else {
        first_non_integer(parts.skip(1))
    }
}

/// The integers that `parts` write, one for one.
pub open spec fn integers_of(parts: Seq<Seq<char>>) -> Seq<i32> {
    Seq::new(parts.len(), |i: int| parse_i32(parts[i]).unwrap())
}

/// The first comma of `s` stands where a comma stands and none stands before.
pub proof fn lemma_first_comma_at(s: Seq<char>, k: int)
    requires
        0 <= k <= s.len(),
        forall|j: int| 0 <= j < k ==> s[j] != ',',
        k < s.len() ==> s[k] == ',',
    ensures
        first_comma(s) == k,
    decreases k,
{
    if k > 0 {
        lemma_first_comma_at(s.skip(1), k - 1);
    }
}

/// Integer texts in front do not change which piece is the first bad one.
pub proof fn lemma_first_non_integer_after(done: Seq<Seq<char>>, rest: Seq<Seq<char>>)
    requires
        first_non_integer(done) is None,
    ensures
        first_non_integer(done + rest) == first_non_integer(rest),
    decreases done.len(),
{
    if done.len() > 0 {
        assert((done + rest).skip(1) =~= done.skip(1) + rest);
        lemma_first_non_integer_after(done.skip(1), rest);
    }
}

/// No piece is bad exactly when every piece is an integer text; a bad piece
/// that is reported is one of the pieces, and all before it are integer texts.
pub proof fn lemma_first_non_integer_is_first(parts: Seq<Seq<char>>)
    ensures
        first_non_integer(parts) is None <==> forall|i: int|
            0 <= i < parts.len() ==> parse_i32(#[trigger] parts[i]) is Some,
        first_non_integer(parts) is Some ==> exists|j: int|
            0 <= j < parts.len() && first_non_integer(parts) == Some(#[trigger] parts[j])
                && parse_i32(parts[j]) is None && forall|i: int|
                0 <= i < j ==> parse_i32(#[trigger] parts[i]) is Some,
    decreases parts.len(),
{
    if parts.len() > 0 {
        let tail = parts.skip(1);
        lemma_first_non_integer_is_first(tail);
        if parse_i32(parts[0]) is Some {
            if forall|i: int| 0 <= i < tail.len() ==> parse_i32(#[trigger] tail[i]) is Some {
                assert forall|i: int| 0 <= i < parts.len() implies parse_i32(
                    #[trigger] parts[i],
                ) is Some by {
                    if i > 0 {
                        assert(tail[i - 1] == parts[i]);
                    }
                }
            }
            if first_non_integer(tail) is Some {
                let j = choose|j: int|
                    0 <= j < tail.len() && first_non_integer(tail) == Some(#[trigger] tail[j])
                        && parse_i32(tail[j]) is None && forall|i: int|
                        0 <= i < j ==> parse_i32(#[trigger] tail[i]) is Some;
                assert forall|i: int| 0 <= i < j + 1 implies parse_i32(
                    #[trigger] parts[i],
                ) is Some by {
                    if i > 0 {
                        assert(tail[i - 1] == parts[i]);
                    }
                }
            }
        }
    }
}

/// Reads `ids_str` as a list of 32-bit integers parted by commas. Each piece
/// must be an integer text, so an empty piece fails; the first piece that is
/// none is handed back in the error. The integers come in the order written,
/// repeats included.
pub fn parse_ids(ids_str: &str) -> (r: Result<Vec<i32>, ValidationError>)
    ensures
        match r {
            Ok(ids) => first_non_integer(comma_separated(ids_str@)) is None && ids@
                == integers_of(comma_separated(ids_str@)),
            Err(e) => first_non_integer(comma_separated(ids_str@)) is Some && e@
                == ValidationFailure::InvalidInteger(
                first_non_integer(comma_separated(ids_str@))->0,
            ),
        },
{
    let chars = chars_of(ids_str);
    let len: usize = chars.len();
    let mut ids: Vec<i32> = Vec::new();
    let mut start: usize = 0;
    let ghost mut done: Seq<Seq<char>> = Seq::empty();
    assert(ids_str@.skip(0) =~= ids_str@);
    loop
        invariant
            chars@ == ids_str@,
            len == chars.len(),
            start <= len,
            comma_separated(ids_str@) == done + comma_separated(ids_str@.skip(start as int)),
            first_non_integer(done) is None,
            ids@ == integers_of(done),
        decreases len - start,
    {
        let mut end: usize = start;
        while end < len && chars[end] != ','
            invariant
                start <= end <= len,
                len == chars.len(),
                forall|j: int| start <= j < end ==> chars[j] != ',',
            decreases len - end,
        {
            end = end + 1;
        }
        let ghost rest = ids_str@.skip(start as int);
        let ghost piece = ids_str@.subrange(start as int, end as int);
        proof {
            lemma_first_comma_at(rest, end - start);
            assert(rest.take(end - start) =~= piece);
            if end < len {
                assert(rest.skip(end - start + 1) =~= ids_str@.skip(end + 1));
            }
        }
        match parse_i32_in(&chars, start, end) {
            None => {
                proof {
                    lemma_first_non_integer_after(done, comma_separated(rest));
                }
                let raw = ids_str.substring_char(start, end);
                return Err(ValidationError::InvalidInteger(String::from_str(raw)));
            },
            Some(n) => {
                proof {
                    let grown = done.push(piece);
                    assert(done + seq![piece] =~= grown);
                    assert(first_non_integer(seq![piece]) is None) by {
                        reveal_with_fuel(first_non_integer, 2);
                    }
                    lemma_first_non_integer_after(done, seq![piece]);
                    done = grown;
                }
                ids.push(n);
            },
        }
        if end == len {
            return Ok(ids);
        }
        start = end + 1;
    }
}

/// How many digits stand at the start of `s`.
pub open spec fn digit_run(s: Seq<char>) -> int
    decreases s.len(),
{
    if s.len() == 0 || !is_digit(s[0]) {
        0
    } else {
        1 + digit_run(s.skip(1))
    }
}

/// Whether `c` is the letter given in its small and its capital form.
pub open spec fn is_letter(c: char, small: char, capital: char) -> bool {
    c == small || c == capital
}

/// Whether `s` spells `inf`, `infinity` or `nan`, in small or capital letters.
pub open spec fn is_special_float(s: Seq<char>) -> bool {
    ||| {
        &&& s.len() == 3
        &&& is_letter(s[0], 'i', 'I')
        &&& is_letter(s[1], 'n', 'N')
        &&& is_letter(s[2], 'f', 'F')
    }
    ||| {
        &&& s.len() == 3
        &&& is_letter(s[0], 'n', 'N')
        &&& is_letter(s[1], 'a', 'A')
        &&& is_letter(s[2], 'n', 'N')
    }
    ||| {
        &&& s.len() == 8
        &&& is_letter(s[0], 'i', 'I')
        &&& is_letter(s[1], 'n', 'N')
        &&& is_letter(s[2], 'f', 'F')
        &&& is_letter(s[3], 'i', 'I')
        &&& is_letter(s[4], 'n', 'N')
        &&& is_letter(s[5], 'i', 'I')
        &&& is_letter(s[6], 't', 'T')
        &&& is_letter(s[7], 'y', 'Y')
    }
}

/// Whether `s` is an exponent: `e` or `E`, an optional sign, then one or more
/// digits and nothing else.
pub open spec fn is_exponent(s: Seq<char>) -> bool {
    &&& s.len() > 0
    &&& is_letter(s[0], 'e', 'E')
    &&& unsigned_part(s.skip(1)).len() > 0
    &&& all_digits(unsigned_part(s.skip(1)))
}

/// Whether `s` is a decimal number without a sign: digits, optionally a point
/// and more digits, with at least one digit before or after the point, and
/// optionally an exponent at the end.
pub open spec fn is_decimal_number(s: Seq<char>) -> bool {
    let whole = digit_run(s);
    let after_whole = s.skip(whole);
    if after_whole.len() > 0 && after_whole[0] == '.' {
        let fraction = digit_run(after_whole.skip(1));
        let tail = after_whole.skip(1 + fraction);
        whole + fraction >= 1 && (tail.len() == 0 || is_exponent(tail))
    } else {
        whole >= 1 && (after_whole.len() == 0 || is_exponent(after_whole))
    }
}

/// Whether `s` writes a floating-point number in base ten: an optional sign,
/// then a decimal number or one of the words `inf`, `infinity` and `nan`.
pub open spec fn is_float_text(s: Seq<char>) -> bool {
    is_special_float(unsigned_part(s)) || is_decimal_number(unsigned_part(s))
}

/// A run of digits is no longer than the text, holds digits only, and ends
/// at the end of the text or before a character that is no digit.
pub proof fn lemma_digit_run(s: Seq<char>)
    ensures
        0 <= digit_run(s) <= s.len(),
        all_digits(s.take(digit_run(s))),
        digit_run(s) < s.len() ==> !is_digit(s[digit_run(s)]),
    decreases s.len(),
{
    if s.len() > 0 && is_digit(s[0]) {
        let tail = s.skip(1);
        lemma_digit_run(tail);
        let run = s.take(digit_run(s));
        assert forall|i: int| 0 <= i < run.len() implies is_digit(#[trigger] run[i]) by {
            if i > 0 {
                assert(run[i] == tail.take(digit_run(tail))[i - 1]);
            }
        }
    }
}

/// The run of digits at the start of `s` has length `n` where `n` digits
/// stand there and the next character, if any, is none.
pub proof fn lemma_digit_run_is(s: Seq<char>, n: int)
    requires
        0 <= n <= s.len(),
        forall|i: int| 0 <= i < n ==> is_digit(#[trigger] s[i]),
        n < s.len() ==> !is_digit(s[n]),
    ensures
        digit_run(s) == n,
    decreases n,
{
    if n > 0 {
        let tail = s.skip(1);
        assert(forall|i: int| 0 <= i < n - 1 ==> is_digit(#[trigger] tail[i]));
        lemma_digit_run_is(tail, n - 1);
    }
}

fn is_letter_of(c: char, small: char, capital: char) -> (b: bool)
    ensures
        b == is_letter(c, small, capital),
{
    c == small || c == capital
}

/// Counts the digits that stand in `chars` from `from` on, before `end`.
fn count_digits(chars: &Vec<char>, from: usize, end: usize) -> (n: usize)
    requires
        from <= end <= chars.len(),
    ensures
        n == digit_run(chars@.subrange(from as int, end as int)),
        from + n <= end,
{
    let mut i: usize = from;
    while i < end && digit_of(chars[i]).is_some()
        invariant
            from <= i <= end <= chars.len(),
            forall|j: int| from <= j < i ==> is_digit(#[trigger] chars[j]),
        decreases end - i,
    {
        i = i + 1;
    }
    proof {
        lemma_digit_run_is(chars@.subrange(from as int, end as int), i - from);
    }
    i - from
}

fn is_exponent_in(chars: &Vec<char>, from: usize, end: usize) -> (b: bool)
    requires
        from <= end <= chars.len(),
    ensures
        b == is_exponent(chars@.subrange(from as int, end as int)),
{
    let ghost text = chars@.subrange(from as int, end as int);
    if from == end || !is_letter_of(chars[from], 'e', 'E') {
        return false;
    }
    let mut first: usize = from + 1;
    if first < end && (chars[first] == '+' || chars[first] == '-') {
        first = first + 1;
    }
    let ghost digits = unsigned_part(text.skip(1));
    assert(digits =~= chars@.subrange(first as int, end as int));
    let n = count_digits(chars, first, end);
    proof {
        lemma_digit_run(digits);
        if first + n == end {
            assert(digits.take(n as int) =~= digits);
        }
    }
    first < end && first + n == end
}

fn is_special_float_in(chars: &Vec<char>, from: usize, end: usize) -> (b: bool)
    requires
        from <= end <= chars.len(),
    ensures
        b == is_special_float(chars@.subrange(from as int, end as int)),
{
    let len: usize = end - from;
    if len == 3 {
        let c0 = chars[from];
        let c1 = chars[from + 1];
        let c2 = chars[from + 2];
        (is_letter_of(c0, 'i', 'I') && is_letter_of(c1, 'n', 'N') && is_letter_of(c2, 'f', 'F'))
            || (is_letter_of(c0, 'n', 'N') && is_letter_of(c1, 'a', 'A') && is_letter_of(
            c2,
            'n',
            'N',
        ))
    } else if len == 8 {
        is_letter_of(chars[from], 'i', 'I') && is_letter_of(chars[from + 1], 'n', 'N')
            && is_letter_of(chars[from + 2], 'f', 'F') && is_letter_of(chars[from + 3], 'i', 'I')
            && is_letter_of(chars[from + 4], 'n', 'N') && is_letter_of(chars[from + 5], 'i', 'I')
            && is_letter_of(chars[from + 6], 't', 'T') && is_letter_of(chars[from + 7], 'y', 'Y')
    } else {
        false
    }
}

fn is_decimal_number_in(chars: &Vec<char>, from: usize, end: usize) -> (b: bool)
    requires
        from <= end <= chars.len(),
    ensures
        b == is_decimal_number(chars@.subrange(from as int, end as int)),
{
    let ghost text = chars@.subrange(from as int, end as int);
    let whole = count_digits(chars, from, end);
    let point: usize = from + whole;
    assert(text.skip(whole as int) =~= chars@.subrange(point as int, end as int));
    if point < end && chars[point] == '.' {
        let fraction = count_digits(chars, point + 1, end);
        let tail: usize = point + 1 + fraction;
        assert(text.skip(whole as int).skip(1) =~= chars@.subrange(point + 1, end as int));
        assert(text.skip(whole as int).skip(1 + fraction) =~= chars@.subrange(
            tail as int,
            end as int,
        ));
        whole + fraction >= 1 && (tail == end || is_exponent_in(chars, tail, end))
    } else {
        whole >= 1 && (point == end || is_exponent_in(chars, point, end))
    }
}

/// Tells whether `float_str` writes a floating-point number in base ten, and
/// hands it back in the error as it came where it does not.
pub fn validate_float(float_str: &str) -> (r: Result<(), ValidationError>)
    ensures
        match r {
            Ok(_) => is_float_text(float_str@),
            Err(e) => !is_float_text(float_str@) && e@ == ValidationFailure::InvalidFloat(
                float_str@,
            ),
        },
{
    let chars = chars_of(float_str);
    let end: usize = chars.len();
    let first: usize = if end > 0 && (chars[0] == '+' || chars[0] == '-') {
        1
    } else {
        0
    };
    assert(unsigned_part(float_str@) =~= chars@.subrange(first as int, end as int));
    if is_special_float_in(&chars, first, end) || is_decimal_number_in(&chars, first, end) {
        Ok(())
    } else {
        Err(ValidationError::InvalidFloat(String::from_str(float_str)))
    }
}

} // verus!
