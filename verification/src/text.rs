//! Characters, decimal numbers and the small pieces of text handling that the
//! other modules share.
//!
//! Every string is modelled by its view, a `Seq<char>`.
use vstd::prelude::*;
use vstd::std_specs::iter::IteratorSpec;

verus! {

/// `String::push` of the standard library: the character is appended to the
/// end of the string and nothing else changes.
pub assume_specification[ String::push ](s: &mut String, c: char)
    ensures
        final(s)@ == old(s)@.push(c),
;

/// The characters of `s`, in order.
pub fn chars_of(s: &str) -> (v: Vec<char>)
    ensures
        v@ == s@,
{
    let mut it = s.chars();
    let mut v: Vec<char> = Vec::new();
    loop
        invariant
            it.obeys_prophetic_iter_laws(),
            it.decrease() is Some,
            v@ + it.remaining() == s@,
        ensures
            v@ == s@,
        decreases it.decrease()->0,
    {
        let ghost before = it.remaining();
        match it.next() {
            Some(c) => {
                v.push(c);
                assert(v@ + it.remaining() == s@) by {
                    assert(before == seq![c] + before.drop_first());
                    assert(v@ + it.remaining() =~= (v@.drop_last() + before));
                }
            },
            None => {
                assert(v@ =~= v@ + it.remaining());
                break ;
            },
        }
    }
    v
}

/// Whether `c` is one of the ten ASCII digits.
pub open spec fn is_digit(c: char) -> bool {
    '0' <= c && c <= '9'
}

/// The number that an ASCII digit stands for.
pub open spec fn digit_value(c: char) -> nat
    recommends
        is_digit(c),
{
    (c as int - '0' as int) as nat
}

/// The ASCII digit that stands for `d`.
pub open spec fn digit_char(d: nat) -> char
    recommends
        d < 10,
{
    (d + '0' as nat) as char
}

/// Whether every character of `s` is an ASCII digit.
pub open spec fn all_digits(s: Seq<char>) -> bool {
    forall|i: int| 0 <= i < s.len() ==> is_digit(#[trigger] s[i])
}

/// The number that a run of digits writes in base ten; the empty run writes 0.
pub open spec fn decimal_value(s: Seq<char>) -> nat
    decreases s.len(),
{
    if s.len() == 0 {
        0
    } else {
        decimal_value(s.drop_last()) * 10 + digit_value(s.last())
    }
}

/// The shortest run of digits that writes `n` in base ten.
pub open spec fn decimal_digits(n: nat) -> Seq<char>
    decreases n,
{
    if n < 10 {
        seq![digit_char(n)]
    } else {
        decimal_digits(n / 10).push(digit_char(n % 10))
    }
}

/// How an integer is written in base ten: a minus sign before the digits of
/// a negative number, no sign otherwise.
pub open spec fn decimal_text(i: int) -> Seq<char> {
    if i < 0 {
        seq!['-'] + decimal_digits((-i) as nat)
    } else {
        decimal_digits(i as nat)
    }
}

/// Whether `c` is an ASCII digit.
fn digit_test(c: char) -> (b: bool)
    ensures
        b == is_digit(c),
{
    '0' <= c && c <= '9'
}

/// The value of the ASCII digit `c`.
fn digit_number(c: char) -> (d: u8)
    requires
        is_digit(c),
    ensures
        d == digit_value(c),
        d < 10,
{
    (c as u32 - '0' as u32) as u8
}

/// The ASCII digit for `d`.
fn digit_for(d: u8) -> (c: char)
    requires
        d < 10,
    ensures
        c == digit_char(d as nat),
        is_digit(c),
{
    if d == 0 {
        '0'
    } else if d == 1 {
        '1'
    } else if d == 2 {
        '2'
    } else if d == 3 {
        '3'
    } else if d == 4 {
        '4'
    } else if d == 5 {
        '5'
    } else if d == 6 {
        '6'
    } else if d == 7 {
        '7'
    } else if d == 8 {
        '8'
    } else {
        '9'
    }
}

/// Appends the base-ten digits of `n` to `out`.
pub fn push_decimal(out: &mut String, n: u128)
    ensures
        final(out)@ == old(out)@ + decimal_digits(n as nat),
    decreases n,
{
    if n >= 10 {
        push_decimal(out, n / 10);
    }
    out.push(digit_for((n % 10) as u8));
    assert(final(out)@ =~= old(out)@ + decimal_digits(n as nat));
}

/// `n` written in base ten.
pub fn decimal_string(n: u64) -> (s: String)
    ensures
        s@ == decimal_digits(n as nat),
{
    let mut out = String::new();
    push_decimal(&mut out, n as u128);
    assert(out@ =~= decimal_digits(n as nat));
    out
}

/// `i` written in base ten, with a minus sign if it is negative.
pub fn signed_decimal_string(i: i64) -> (s: String)
    ensures
        s@ == decimal_text(i as int),
{
    let mut out = String::new();
    if i < 0 {
        out.push('-');
        let magnitude: u64 = if i == i64::MIN {
            9223372036854775808u64
        } else {
            (-i) as u64
        };
        push_decimal(&mut out, magnitude as u128);
        assert(out@ =~= decimal_text(i as int));
    } else {
        push_decimal(&mut out, i as u128);
        assert(out@ =~= decimal_text(i as int));
    }
    out
}

/// The texts of a list of strings.
pub open spec fn texts(v: Seq<String>) -> Seq<Seq<char>> {
    v.map_values(|s: String| s@)
}

/// The texts of a list of rows of strings.
pub open spec fn table_texts(rows: Seq<Vec<String>>) -> Seq<Seq<Seq<char>>> {
    rows.map_values(|r: Vec<String>| texts(r@))
}

/// Whether two strings hold the same characters.
pub fn same_text(a: &str, b: &str) -> (r: bool)
    ensures
        r == (a@ == b@),
{
    let x = chars_of(a);
    let y = chars_of(b);
    if x.len() != y.len() {
        return false;
    }
    let mut i: usize = 0;
    while i < x.len()
        invariant
            i <= x.len(),
            x.len() == y.len(),
            x@ == a@,
            y@ == b@,
            forall|k: int| 0 <= k < i ==> x@[k] == y@[k],
        decreases x.len() - i,
    {
        if x[i] != y[i] {
            return false;
        }
        i += 1;
    }
    assert(x@ =~= y@);
    true
}

/// A prefix of a run of digits writes no more than the whole run.
pub proof fn lemma_decimal_value_prefix(s: Seq<char>, k: int)
    requires
        0 <= k <= s.len(),
    ensures
        decimal_value(s.take(k)) <= decimal_value(s),
    decreases s.len(),
{
    if k == s.len() {
        assert(s.take(k) =~= s);
    } else {
        lemma_decimal_value_prefix(s.drop_last(), k);
        assert(s.drop_last().take(k) =~= s.take(k));
    }
}

/// The value of the digits of `s` from `start` to its end, where that run
/// is not empty, holds digits only and writes at most `limit`.
pub open spec fn bounded_digits(s: Seq<char>, start: int, limit: nat) -> Option<nat> {
    let run = s.skip(start);
    if run.len() > 0 && all_digits(run) && decimal_value(run) <= limit {
        Some(decimal_value(run))
    } else {
        None
    }
}

/// Reads the digits of `v` from `start` to its end as a number of at most
/// `limit`.
fn read_digits(v: &Vec<char>, start: usize, limit: u64) -> (r: Option<u64>)
    requires
        start <= v.len(),
    ensures
        r matches Some(n) ==> bounded_digits(v@, start as int, limit as nat) == Some(n as nat),
        r is None ==> bounded_digits(v@, start as int, limit as nat) is None,
{
    if start == v.len() {
        return None;
    }
    let ghost run = v@.skip(start as int);
    let mut acc: u128 = 0;
    let mut i: usize = start;
    while i < v.len()
        invariant
            start <= i <= v.len(),
            run == v@.skip(start as int),
            all_digits(run.take(i - start)),
            acc == decimal_value(run.take(i - start)),
            acc <= limit,
        decreases v.len() - i,
    {
        let c = v[i];
        assert(run[i - start] == c);
        if !digit_test(c) {
            return None;
        }
        let next: u128 = acc * 10 + (digit_number(c) as u128);
        proof {
            let longer = run.take(i - start + 1);
            assert(longer.drop_last() =~= run.take(i - start));
            assert(longer.last() == c);
            assert(decimal_value(longer) == next);
            assert(all_digits(longer)) by {
                assert forall|k: int| 0 <= k < longer.len() implies is_digit(
                    #[trigger] longer[k],
                ) by {
                    if k < i - start {
                        assert(run.take(i - start)[k] == longer[k]);
                    }
                }
            }
        }
        if next > limit as u128 {
            proof {
                lemma_decimal_value_prefix(run, i - start + 1);
            }
            return None;
        }
        acc = next;
        i += 1;
    }
    assert(run.take(i - start) =~= run);
    Some(acc as u64)
}

/// How many of the leading characters of `s` are a sign that the reader of
/// a signed number accepts: one for `+` or `-`, none otherwise.
pub open spec fn sign_length(s: Seq<char>) -> int {
    if s.len() > 0 && (s[0] == '+' || s[0] == '-') {
        1
    } else {
        0
    }
}

/// The integer that `s` writes: an optional `+` or `-`, then at least one
/// digit and nothing else. `None` for every other text.
pub open spec fn signed_literal(s: Seq<char>) -> Option<int> {
    let digits = s.skip(sign_length(s));
    if digits.len() > 0 && all_digits(digits) {
        if s[0] == '-' {
            Some(-(decimal_value(digits) as int))
        } else {
            Some(decimal_value(digits) as int)
        }
    } else {
        None
    }
}

/// The natural number that `s` writes: an optional `+`, then at least one
/// digit and nothing else. A leading `-` is no part of such a number.
pub open spec fn unsigned_literal(s: Seq<char>) -> Option<nat> {
    let digits = if s.len() > 0 && s[0] == '+' {
        s.skip(1)
    } else {
        s
    };
    if digits.len() > 0 && all_digits(digits) {
        Some(decimal_value(digits))
    } else {
        None
    }
}

/// What reading `s` as a 64-bit signed integer gives: the integer it
/// writes, if it writes one and that fits.
pub open spec fn i64_of(s: Seq<char>) -> Option<i64> {
    match signed_literal(s) {
        Some(v) => if i64::MIN <= v <= i64::MAX {
            Some(v as i64)
        } else {
            None
        },
        None => None,
    }
}

/// What reading `s` as a byte gives: the number it writes, if it writes one
/// and that is at most 255.
pub open spec fn u8_of(s: Seq<char>) -> Option<u8> {
    match unsigned_literal(s) {
        Some(v) => if v <= u8::MAX {
            Some(v as u8)
        } else {
            None
        },
        None => None,
    }
}

/// Reads `s` as a 64-bit signed integer in base ten.
pub fn parse_i64(s: &str) -> (r: Option<i64>)
    ensures
        r == i64_of(s@),
{
    let v = chars_of(s);
    if v.len() == 0 {
        return None;
    }
    let negative = v[0] == '-';
    let start: usize = if v[0] == '-' || v[0] == '+' {
        1
    } else {
        0
    };
    assert(start == sign_length(v@));
    if negative {
        match read_digits(&v, start, 9223372036854775808u64) {
            Some(n) => {
                if n == 9223372036854775808u64 {
                    Some(i64::MIN)
                } else {
                    Some(-(n as i64))
                }
            },
            None => None,
        }
    } else {
        match read_digits(&v, start, 9223372036854775807u64) {
            Some(n) => Some(n as i64),
            None => None,
        }
    }
}

/// Reads `s` as a byte in base ten.
pub fn parse_u8(s: &str) -> (r: Option<u8>)
    ensures
        r == u8_of(s@),
{
    let v = chars_of(s);
    if v.len() == 0 {
        return None;
    }
    let start: usize = if v[0] == '+' {
        1
    } else {
        0
    };
    assert(v@.skip(0) =~= v@);
    match read_digits(&v, start, 255) {
        Some(n) => Some(n as u8),
        None => None,
    }
}

// ---------------------------------------------------------------------------
// Floating-point literals
// ---------------------------------------------------------------------------
/// The position of the first character of `s` at or after `from` that is no
/// digit; the length of `s` if there is none.
pub open spec fn digits_end(s: Seq<char>, from: int) -> int
    decreases s.len() - from,
{
    if 0 <= from < s.len() && is_digit(s[from]) {
        digits_end(s, from + 1)
    } else {
        from
    }
}

/// Whether `s` is, from `from` to its end, an exponent: `e` or `E`, an
/// optional sign, and at least one digit.
pub open spec fn is_exponent(s: Seq<char>, from: int) -> bool {
    &&& 0 <= from < s.len()
    &&& (s[from] == 'e' || s[from] == 'E')
    &&& {
        let digits = if from + 1 < s.len() && (s[from + 1] == '+' || s[from + 1] == '-') {
            from + 2
        } else {
            from + 1
        };
        digits < s.len() && digits_end(s, digits) == s.len()
    }
}

/// Whether `s` is, from `from` to its end, a decimal number: digits with
/// at most one point among them and at least one digit in all, then
/// optionally an exponent.
pub open spec fn is_decimal_number(s: Seq<char>, from: int) -> bool {
    let whole_end = digits_end(s, from);
    let has_point = whole_end < s.len() && s[whole_end] == '.';
    let mantissa_end = if has_point {
        digits_end(s, whole_end + 1)
    } else {
        whole_end
    };
    let digit_count = if has_point {
        mantissa_end - from - 1
    } else {
        mantissa_end - from
    };
    digit_count >= 1 && (mantissa_end == s.len() || is_exponent(s, mantissa_end))
}

/// Whether `c` is the letter `lower` in either case; `upper` is its capital.
pub open spec fn is_letter(c: char, lower: char, upper: char) -> bool {
    c == lower || c == upper
}

/// Whether `s` is, from `from` to its end, one of the words `inf`,
/// `infinity` and `nan`, in any mix of cases.
pub open spec fn is_special_float(s: Seq<char>, from: int) -> bool {
    let n = s.len() - from;
    ||| (n == 3 && is_letter(s[from], 'i', 'I') && is_letter(s[from + 1], 'n', 'N') && is_letter(
        s[from + 2],
        'f',
        'F',
    ))
    ||| (n == 3 && is_letter(s[from], 'n', 'N') && is_letter(s[from + 1], 'a', 'A') && is_letter(
        s[from + 2],
        'n',
        'N',
    ))
    ||| (n == 8 && is_letter(s[from], 'i', 'I') && is_letter(s[from + 1], 'n', 'N') && is_letter(
        s[from + 2],
        'f',
        'F',
    ) && is_letter(s[from + 3], 'i', 'I') && is_letter(s[from + 4], 'n', 'N') && is_letter(
        s[from + 5],
        'i',
        'I',
    ) && is_letter(s[from + 6], 't', 'T') && is_letter(s[from + 7], 'y', 'Y'))
}

/// Whether `s` writes a floating-point number: an optional sign, then a
/// decimal number or one of the words for infinity and not-a-number.
pub open spec fn is_float_literal(s: Seq<char>) -> bool {
    let from = sign_length(s);
    is_decimal_number(s, from) || is_special_float(s, from)
}

/// Every text that writes an integer also writes a floating-point number.
pub proof fn lemma_integer_is_float(s: Seq<char>)
    requires
        signed_literal(s) is Some,
    ensures
        is_float_literal(s),
{
    let from = sign_length(s);
    lemma_digits_end_of_digits(s, from);
}

/// Where `s` holds digits only from `from` on, they end with `s`.
pub proof fn lemma_digits_end_of_digits(s: Seq<char>, from: int)
    requires
        0 <= from <= s.len(),
        all_digits(s.skip(from)),
    ensures
        digits_end(s, from) == s.len(),
    decreases s.len() - from,
{
    if from < s.len() {
        assert(s.skip(from)[0] == s[from]);
        assert(all_digits(s.skip(from + 1))) by {
            assert forall|k: int| 0 <= k < s.skip(from + 1).len() implies is_digit(
                #[trigger] s.skip(from + 1)[k],
            ) by {
                assert(s.skip(from + 1)[k] == s.skip(from)[k + 1]);
            }
        }
        lemma_digits_end_of_digits(s, from + 1);
    }
}

/// The position of the first character of `v` at or after `from` that is no
/// digit.
fn find_digits_end(v: &Vec<char>, from: usize) -> (end: usize)
    requires
        from <= v.len(),
    ensures
        end == digits_end(v@, from as int),
        from <= end <= v.len(),
{
    let mut i: usize = from;
    while i < v.len() && digit_test(v[i])
        invariant
            from <= i <= v.len(),
            digits_end(v@, from as int) == digits_end(v@, i as int),
        decreases v.len() - i,
    {
        i += 1;
    }
    i
}

/// Whether `c` is the letter `lower` in either case.
fn letter_test(c: char, lower: char, upper: char) -> (b: bool)
    ensures
        b == is_letter(c, lower, upper),
{
    c == lower || c == upper
}

/// Whether `s` writes a floating-point number.
pub fn float_literal_test(s: &str) -> (b: bool)
    ensures
        b == is_float_literal(s@),
{
    let v = chars_of(s);
    let from: usize = if v.len() > 0 && (v[0] == '+' || v[0] == '-') {
        1
    } else {
        0
    };
    let n = v.len() - from;
    let special = if n == 3 {
        (letter_test(v[from], 'i', 'I') && letter_test(v[from + 1], 'n', 'N') && letter_test(
            v[from + 2],
            'f',
            'F',
        )) || (letter_test(v[from], 'n', 'N') && letter_test(v[from + 1], 'a', 'A')
            && letter_test(v[from + 2], 'n', 'N'))
    } else if n == 8 {
        letter_test(v[from], 'i', 'I') && letter_test(v[from + 1], 'n', 'N') && letter_test(
            v[from + 2],
            'f',
            'F',
        ) && letter_test(v[from + 3], 'i', 'I') && letter_test(v[from + 4], 'n', 'N')
            && letter_test(v[from + 5], 'i', 'I') && letter_test(v[from + 6], 't', 'T')
            && letter_test(v[from + 7], 'y', 'Y')
    } else {
        false
    };
    if special {
        return true;
    }
    let whole_end = find_digits_end(&v, from);
    let has_point = whole_end < v.len() && v[whole_end] == '.';
    let mantissa_end = if has_point {
        find_digits_end(&v, whole_end + 1)
    } else {
        whole_end
    };
    let digit_count = if has_point {
        mantissa_end - from - 1
    } else {
        mantissa_end - from
    };
    if digit_count == 0 {
        return false;
    }
    if mantissa_end == v.len() {
        return true;
    }
    if v[mantissa_end] != 'e' && v[mantissa_end] != 'E' {
        return false;
    }
    let digits: usize = if mantissa_end + 1 < v.len() && (v[mantissa_end + 1] == '+'
        || v[mantissa_end + 1] == '-') {
        mantissa_end + 2
    } else {
        mantissa_end + 1
    };
    if digits >= v.len() {
        return false;
    }
    find_digits_end(&v, digits) == v.len()
}

// ---------------------------------------------------------------------------
// Joining and quoting
// ---------------------------------------------------------------------------
/// The parts in order, with `sep` between each two.
pub open spec fn join(parts: Seq<Seq<char>>, sep: Seq<char>) -> Seq<char>
    decreases parts.len(),
{
    if parts.len() == 0 {
        Seq::empty()
    } else if parts.len() == 1 {
        parts[0]
    } else {
        join(parts.drop_last(), sep) + sep + parts.last()
    }
}

/// How one character is written inside a string literal of SQL: a single
/// quote twice, every other character as it is.
pub open spec fn quote_doubled(c: char) -> Seq<char> {
    if c == '\'' {
        seq!['\'', '\'']
    } else {
        seq![c]
    }
}

/// `s` with every single quote written twice.
pub open spec fn double_quotes(s: Seq<char>) -> Seq<char>
    decreases s.len(),
{
    if s.len() == 0 {
        Seq::empty()
    } else {
        quote_doubled(s[0]) + double_quotes(s.skip(1))
    }
}

/// Doubling the quotes of a text with one more character at its end
/// doubles the quotes of the text and of the character.
pub proof fn lemma_double_quotes_push(s: Seq<char>, c: char)
    ensures
        double_quotes(s.push(c)) == double_quotes(s) + quote_doubled(c),
    decreases s.len(),
{
    if s.len() == 0 {
        let one = s.push(c);
        assert(one.len() == 1 && one[0] == c);
        assert(one.skip(1).len() == 0);
        assert(double_quotes(one.skip(1)) =~= Seq::<char>::empty());
        assert(double_quotes(one) == quote_doubled(c) + double_quotes(one.skip(1)));
        assert(double_quotes(one) =~= quote_doubled(c));
        assert(double_quotes(s) + quote_doubled(c) =~= quote_doubled(c));
    } else {
        lemma_double_quotes_push(s.skip(1), c);
        assert(s.push(c).skip(1) =~= s.skip(1).push(c));
        assert(quote_doubled(s[0]) + (double_quotes(s.skip(1)) + quote_doubled(c)) =~= (
        quote_doubled(s[0]) + double_quotes(s.skip(1))) + quote_doubled(c));
    }
}

/// `s` as a string literal of SQL: between single quotes, with every single
/// quote inside written twice.
pub open spec fn quoted_literal(s: Seq<char>) -> Seq<char> {
    seq!['\''] + double_quotes(s) + seq!['\'']
}

/// `s` with every pair of single quotes, taken from the left, written once.
pub open spec fn undouble_quotes(s: Seq<char>) -> Seq<char>
    decreases s.len(),
{
    if s.len() == 0 {
        Seq::empty()
    } else if s.len() >= 2 && s[0] == '\'' && s[1] == '\'' {
        seq!['\''] + undouble_quotes(s.skip(2))
    } else {
        seq![s[0]] + undouble_quotes(s.skip(1))
    }
}

/// What a string literal of SQL stands for: the text between its first and
/// its last character, with every doubled single quote written once.
pub open spec fn literal_content(s: Seq<char>) -> Seq<char>
    recommends
        s.len() >= 2,
{
    undouble_quotes(s.subrange(1, s.len() - 1))
}

/// Appends `s` to `out` with every single quote written twice.
pub fn push_doubling_quotes(out: &mut String, s: &str)
    ensures
        final(out)@ == old(out)@ + double_quotes(s@),
{
    let v = chars_of(s);
    let mut i: usize = 0;
    while i < v.len()
        invariant
            i <= v.len(),
            v@ == s@,
            out@ == old(out)@ + double_quotes(v@.take(i as int)),
        decreases v.len() - i,
    {
        let c = v[i];
        proof {
            assert(v@.take(i + 1) =~= v@.take(i as int).push(c));
            lemma_double_quotes_push(v@.take(i as int), c);
        }
        if c == '\'' {
            out.push('\'');
            out.push('\'');
            assert(out@ =~= old(out)@ + double_quotes(v@.take(i + 1)));
        } else {
            out.push(c);
            assert(out@ =~= old(out)@ + double_quotes(v@.take(i + 1)));
        }
        i += 1;
    }
    assert(v@.take(i as int) =~= v@);
}

/// Undoing the doubling of a text with its quotes doubled gives the text
/// back, whatever follows it.
pub proof fn lemma_undouble_doubled(s: Seq<char>, rest: Seq<char>)
    ensures
        undouble_quotes(double_quotes(s) + rest) == s + undouble_quotes(rest),
    decreases s.len(),
{
    if s.len() == 0 {
        assert(double_quotes(s) + rest =~= rest);
        assert(s + undouble_quotes(rest) =~= undouble_quotes(rest));
    } else {
        let tail = s.skip(1);
        lemma_undouble_doubled(tail, rest);
        let whole = double_quotes(s) + rest;
        if s[0] == '\'' {
            assert(whole.skip(2) =~= double_quotes(tail) + rest);
            assert(whole[0] == '\'' && whole[1] == '\'');
            assert(seq!['\''] + (tail + undouble_quotes(rest)) =~= s + undouble_quotes(rest));
        } else {
            assert(whole.skip(1) =~= double_quotes(tail) + rest);
            assert(whole[0] == s[0]);
            assert(seq![s[0]] + (tail + undouble_quotes(rest)) =~= s + undouble_quotes(rest));
        }
    }
}

/// The digits of a number write that number.
pub proof fn lemma_decimal_digits_value(n: nat)
    ensures
        decimal_value(decimal_digits(n)) == n,
        all_digits(decimal_digits(n)),
        decimal_digits(n).len() >= 1,
    decreases n,
{
    if n < 10 {
        let d = decimal_digits(n);
        assert(d.len() == 1 && d[0] == digit_char(n));
        assert(d.drop_last().len() == 0);
        assert(decimal_value(d.drop_last()) == 0);
        assert(decimal_value(d) == decimal_value(d.drop_last()) * 10 + digit_value(d.last()));
    } else {
        lemma_decimal_digits_value(n / 10);
        let head = decimal_digits(n / 10);
        let d = head.push(digit_char(n % 10));
        assert(d.drop_last() =~= head);
        assert(d.last() == digit_char(n % 10));
        assert(decimal_value(d) == decimal_value(d.drop_last()) * 10 + digit_value(d.last()));
        assert forall|i: int| 0 <= i < d.len() implies is_digit(#[trigger] d[i]) by {
            if i < head.len() {
                assert(d[i] == head[i]);
            }
        }
    }
}

/// Two numbers with the same digits are the same number.
pub proof fn lemma_decimal_digits_injective(a: nat, b: nat)
    requires
        decimal_digits(a) == decimal_digits(b),
    ensures
        a == b,
{
    lemma_decimal_digits_value(a);
    lemma_decimal_digits_value(b);
}

} // verus!
