//! Text as sequences of characters: numbers in decimal and hexadecimal,
//! prefixes, and the joining of parts.

use vstd::prelude::*;
use vstd::string::*;
use vstd::utf8::encode_utf8;

verus! {

/// `str` equality: two texts are equal exactly when they hold the same
/// characters in the same order.
pub assume_specification[ <str as PartialEq<str>>::eq ](a: &str, b: &str) -> (same: bool)
    ensures
        same == (a@ == b@),
;

/// The character of one decimal digit.
pub open spec fn digit(d: nat) -> char {
    (('0' as u32) + d) as char
}

/// `n` in decimal, without leading zeros.
pub open spec fn decimal(n: nat) -> Seq<char>
    decreases n,
{
    if n < 10 {
        seq![digit(n)]
    } else {
        decimal(n / 10).push(digit(n % 10))
    }
}

/// `n` in decimal, with a minus sign where it is negative.
pub open spec fn signed_decimal(n: int) -> Seq<char> {
    if n < 0 {
        seq!['-'] + decimal((-n) as nat)
    } else {
        decimal(n as nat)
    }
}

/// The last `places` decimal digits of `n`, zeros included.
pub open spec fn padded(n: nat, places: nat) -> Seq<char>
    decreases places,
{
    if places == 0 {
        Seq::empty()
    } else {
        padded(n / 10, (places - 1) as nat).push(digit(n % 10))
    }
}

/// The last `places` decimal digits of `n`, without the zeros at the end.
pub open spec fn fraction(n: nat, places: nat) -> Seq<char>
    decreases places,
{
    if places == 0 {
        Seq::empty()
    } else if n % 10 == 0 {
        fraction(n / 10, (places - 1) as nat)
    } else {
        padded(n, places)
    }
}

/// Ten to the power of `places`.
pub open spec fn ten_to(places: nat) -> nat
    decreases places,
{
    if places == 0 {
        1
    } else {
        10 * ten_to((places - 1) as nat)
    }
}

/// The decimal number `n / 10^places`, exactly: no point where it is whole,
/// and no zeros at the end of its fraction.
pub open spec fn fixed_point(n: nat, places: nat) -> Seq<char> {
    let whole = decimal(n / ten_to(places));
    let rest = n % ten_to(places);
    if rest == 0 {
        whole
    } else {
        whole + seq!['.'] + fraction(rest, places)
    }
}

/// `parts` in order, with `separator` between each two.
pub open spec fn joined(parts: Seq<Seq<char>>, separator: Seq<char>) -> Seq<char>
    decreases parts.len(),
{
    if parts.len() == 0 {
        Seq::empty()
    } else if parts.len() == 1 {
        parts[0]
    } else {
        joined(parts.drop_last(), separator) + separator + parts.last()
    }
}

/// The views of a list of strings.
pub open spec fn texts(items: Seq<String>) -> Seq<Seq<char>> {
    items.map_values(|s: String| s@)
}

/// Whether `c` is a decimal digit.
pub open spec fn is_digit(c: char) -> bool {
    '0' <= c && c <= '9'
}

/// Whether `s` is one or more decimal digits.
pub open spec fn all_digits(s: Seq<char>) -> bool {
    s.len() > 0 && forall|i: int| 0 <= i < s.len() ==> is_digit(#[trigger] s[i])
}

/// The number that the digits of `s` write.
pub open spec fn digits_value(s: Seq<char>) -> nat
    decreases s.len(),
{
    if s.len() == 0 {
        0
    } else {
        10 * digits_value(s.drop_last()) + ((s.last() as u32) - ('0' as u32)) as nat
    }
}

/// The unsigned number `s` writes: digits, after at most one plus sign.
pub open spec fn unsigned_number(s: Seq<char>) -> Option<nat> {
    let digits = if s.len() > 0 && s[0] == '+' { s.skip(1) } else { s };
    if all_digits(digits) {
        Some(digits_value(digits))
    } else {
        None
    }
}

/// The signed number `s` writes: digits, after at most one sign.
pub open spec fn signed_number(s: Seq<char>) -> Option<int> {
    if s.len() > 0 && s[0] == '-' {
        if all_digits(s.skip(1)) {
            Some(-(digits_value(s.skip(1)) as int))
        } else {
            None
        }
    } else {
        match unsigned_number(s) {
            Some(n) => Some(n as int),
            None => None,
        }
    }
}

/// Whether `s` starts with `prefix`.
pub open spec fn begins_with(s: Seq<char>, prefix: Seq<char>) -> bool {
    prefix.len() <= s.len() && s.subrange(0, prefix.len() as int) == prefix
}

/// The digit of `d` as text.
fn digit_text(d: u64) -> (s: &'static str)
    requires
        d < 10,
    ensures
        s@ == seq![digit(d as nat)],
{
    proof {
        reveal_strlit("0");
        reveal_strlit("1");
        reveal_strlit("2");
        reveal_strlit("3");
        reveal_strlit("4");
        reveal_strlit("5");
        reveal_strlit("6");
        reveal_strlit("7");
        reveal_strlit("8");
        reveal_strlit("9");
    }
    let s = match d {
        0 => "0",
        1 => "1",
        2 => "2",
        3 => "3",
        4 => "4",
        5 => "5",
        6 => "6",
        7 => "7",
        8 => "8",
        _ => "9",
    };
    assert(s@ =~= seq![digit(d as nat)]);
    s
}

/// Append `n` in decimal.
pub fn push_decimal(out: &mut String, n: u64)
    ensures
        final(out)@ == old(out)@ + decimal(n as nat),
    decreases n,
{
    if n >= 10 {
        push_decimal(out, n / 10);
    }
    out.append(digit_text(n % 10));
    assert(out@ =~= old(out)@ + decimal(n as nat));
}

/// `n` in decimal.
pub fn decimal_text(n: u64) -> (s: String)
    ensures
        s@ == decimal(n as nat),
{
    let mut s = String::new();
    push_decimal(&mut s, n);
    assert(s@ =~= decimal(n as nat));
    s
}

/// Append the last `places` digits of `n`, zeros included.
fn push_padded(out: &mut String, n: u64, places: u32)
    ensures
        final(out)@ == old(out)@ + padded(n as nat, places as nat),
    decreases places,
{
    if places > 0 {
        push_padded(out, n / 10, places - 1);
        out.append(digit_text(n % 10));
    }
    assert(out@ =~= old(out)@ + padded(n as nat, places as nat));
}

/// Append the last `places` digits of `n`, without the zeros at the end.
fn push_fraction(out: &mut String, n: u64, places: u32)
    ensures
        final(out)@ == old(out)@ + fraction(n as nat, places as nat),
    decreases places,
{
    if places > 0 {
        if n % 10 == 0 {
            push_fraction(out, n / 10, places - 1);
        } else {
            push_padded(out, n, places);
        }
    }
    assert(out@ =~= old(out)@ + fraction(n as nat, places as nat));
}

/// Append `n / 10^places` as an exact decimal number.
pub fn push_fixed_point(out: &mut String, n: u64, places: u32)
    requires
        places <= 9,
    ensures
        final(out)@ == old(out)@ + fixed_point(n as nat, places as nat),
{
    proof {
        reveal_with_fuel(ten_to, 10);
    }
    let mut scale: u64 = 1;
    let mut i: u32 = 0;
    while i < places
        invariant
            i <= places <= 9,
            scale == ten_to(i as nat),
            ten_to(9) == 1_000_000_000,
            scale <= ten_to(9),
        decreases places - i,
    {
        proof {
            lemma_ten_to_monotone((i + 1) as nat, 9);
        }
        scale = scale * 10;
        i = i + 1;
    }
    push_decimal(out, n / scale);
    if n % scale != 0 {
        proof {
            reveal_strlit(".");
        }
        out.append(".");
        push_fraction(out, n % scale, places);
    }
    assert(out@ =~= old(out)@ + fixed_point(n as nat, places as nat)) by {
        reveal_strlit(".");
        assert("."@ =~= seq!['.']);
    }
}

proof fn lemma_ten_to_monotone(a: nat, b: nat)
    requires
        a <= b,
    ensures
        1 <= ten_to(a) <= ten_to(b),
    decreases b,
{
    if a < b {
        lemma_ten_to_monotone(a, (b - 1) as nat);
    } else if a > 0 {
        lemma_ten_to_monotone((a - 1) as nat, (b - 1) as nat);
    }
}

/// `parts` in order, with `separator` between each two.
pub fn join(parts: &Vec<String>, separator: &str) -> (s: String)
    ensures
        s@ == joined(texts(parts@), separator@),
{
    let mut s = String::new();
    let mut i: usize = 0;
    while i < parts.len()
        invariant
            i <= parts.len(),
            s@ == joined(texts(parts@).take(i as int), separator@),
        decreases parts.len() - i,
    {
        if i > 0 {
            s.append(separator);
        }
        s.append(parts[i].as_str());
        proof {
            let next = texts(parts@).take(i + 1);
            assert(next.drop_last() =~= texts(parts@).take(i as int));
            assert(next.last() == parts@[i as int]@);
            assert(s@ =~= joined(next, separator@));
        }
        i = i + 1;
    }
    assert(texts(parts@).take(i as int) =~= texts(parts@));
    s
}

/// Whether `s` starts with `prefix`.
pub fn starts_with(s: &str, prefix: &str) -> (b: bool)
    ensures
        b == begins_with(s@, prefix@),
{
    let n: usize = prefix.unicode_len();
    if s.unicode_len() < n {
        false
    } else {
        *s.substring_char(0, n) == *prefix
    }
}

/// What follows `prefix` in `s`, where `s` starts with it.
pub fn strip_prefix<'a>(s: &'a str, prefix: &str) -> (rest: Option<&'a str>)
    ensures
        rest is Some <==> begins_with(s@, prefix@),
        rest matches Some(r) ==> r@ == s@.skip(prefix@.len() as int),
{
    if starts_with(s, prefix) {
        let rest = s.substring_char(prefix.unicode_len(), s.unicode_len());
        assert(rest@ =~= s@.skip(prefix@.len() as int));
        Some(rest)
    } else {
        None
    }
}

/// The value of the digits `s[from..]`, where every character there is a
/// digit, there is one at least, and the value is at most `limit`.
fn parse_digits(s: &str, from: usize, limit: u64) -> (value: Option<u64>)
    requires
        from <= s@.len(),
    ensures
        value == (if all_digits(s@.skip(from as int)) && digits_value(s@.skip(from as int))
            <= limit {
            Some(digits_value(s@.skip(from as int)) as u64)
        } else {
            None::<u64>
        }),
{
    let n: usize = s.unicode_len();
    if from == n {
        return None;
    }
    let ghost digits = s@.skip(from as int);
    let mut value: u64 = 0;
    let mut i: usize = from;
    while i < n
        invariant
            from <= i <= n,
            n == s@.len(),
            digits == s@.skip(from as int),
            forall|k: int| 0 <= k < i - from ==> is_digit(#[trigger] digits[k]),
            value == digits_value(digits.take(i - from)),
            value <= limit,
        decreases n - i,
    {
        let c = s.get_char(i);
        proof {
            assert(digits[i - from] == c);
            assert(digits.take(i - from + 1).drop_last() =~= digits.take(i - from));
        }
        if !('0' <= c && c <= '9') {
            return None;
        }
        let d: u64 = (c as u32 - '0' as u32) as u64;
        if value > (u64::MAX - d) / 10 || value * 10 + d > limit {
            proof {
                assert(digits_value(digits.take(i - from + 1)) > limit);
                if all_digits(digits) {
                    lemma_digits_value_prefix(digits, i - from + 1);
                }
            }
            return None;
        }
        value = value * 10 + d;
        i = i + 1;
    }
    assert(digits.take(i - from) =~= digits);
    Some(value)
}

proof fn lemma_digits_value_prefix(s: Seq<char>, n: int)
    requires
        all_digits(s),
        0 <= n <= s.len(),
    ensures
        digits_value(s.take(n)) <= digits_value(s),
    decreases s.len() - n,
{
    if n < s.len() {
        lemma_digits_value_prefix(s, n + 1);
        assert(s.take(n + 1).drop_last() =~= s.take(n));
        assert(is_digit(s[n]));
    } else {
        assert(s.take(n) =~= s);
    }
}

/// The number `s` writes, where it is unsigned and fits.
pub fn parse_u64(s: &str) -> (value: Option<u64>)
    ensures
        value == (match unsigned_number(s@) {
            Some(n) => if n <= u64::MAX { Some(n as u64) } else { None::<u64> },
            None => None::<u64>,
        }),
{
    assert(s@.skip(0) =~= s@);
    if s.unicode_len() > 0 && s.get_char(0) == '+' {
        parse_digits(s, 1, u64::MAX)
    } else {
        parse_digits(s, 0, u64::MAX)
    }
}

/// The number `s` writes, where it lies between `-limit - 1` and `limit`.
fn parse_signed(s: &str, limit: i64) -> (value: Option<i64>)
    requires
        0 <= limit,
    ensures
        value == (match signed_number(s@) {
            Some(n) => if -limit - 1 <= n <= limit { Some(n as i64) } else { None::<i64> },
            None => None::<i64>,
        }),
{
    assert(s@.skip(0) =~= s@);
    if s.unicode_len() > 0 && s.get_char(0) == '-' {
        match parse_digits(s, 1, limit as u64 + 1) {
            Some(0) => Some(0),
            Some(n) => Some(-((n - 1) as i64) - 1),
            None => None,
        }
    } else {
        let digits = if s.unicode_len() > 0 && s.get_char(0) == '+' {
            parse_digits(s, 1, limit as u64)
        } else {
            parse_digits(s, 0, limit as u64)
        };
        match digits {
            Some(n) => Some(n as i64),
            None => None,
        }
    }
}

/// The number `s` writes, where it fits in 64 bits with a sign.
pub fn parse_i64(s: &str) -> (value: Option<i64>)
    ensures
        value == (match signed_number(s@) {
            Some(n) => if i64::MIN <= n <= i64::MAX { Some(n as i64) } else { None::<i64> },
            None => None::<i64>,
        }),
{
    parse_signed(s, i64::MAX)
}

/// The number `s` writes, where it fits in 32 bits with a sign.
pub fn parse_i32(s: &str) -> (value: Option<i32>)
    ensures
        value == (match signed_number(s@) {
            Some(n) => if i32::MIN <= n <= i32::MAX { Some(n as i32) } else { None::<i32> },
            None => None::<i32>,
        }),
{
    match parse_signed(s, i32::MAX as i64) {
        Some(n) => Some(n as i32),
        None => None,
    }
}

/// A number written in decimal reads back as itself.
pub proof fn decimal_reads_back(n: nat)
    ensures
        unsigned_number(decimal(n)) == Some(n),
        decimal(n).len() > 0,
        is_digit(decimal(n)[0]),
{
    lemma_decimal_digits(n);
    assert(is_digit(decimal(n)[0]));
}

pub proof fn lemma_decimal_digits(n: nat)
    ensures
        all_digits(decimal(n)),
        digits_value(decimal(n)) == n,
    decreases n,
{
    let d = digit(n % 10);
    assert(is_digit(d) && (d as u32) - ('0' as u32) == n % 10);
    if n < 10 {
        assert(decimal(n).drop_last() =~= Seq::empty());
        assert(decimal(n).last() == d);
        assert(digits_value(Seq::<char>::empty()) == 0);
    } else {
        lemma_decimal_digits(n / 10);
        assert(decimal(n).last() == d);
        assert(decimal(n).drop_last() =~= decimal(n / 10));
        assert forall|i: int| 0 <= i < decimal(n).len() implies is_digit(
            #[trigger] decimal(n)[i],
        ) by {
            if i < decimal(n).len() - 1 {
                assert(decimal(n)[i] == decimal(n / 10)[i]);
            }
        }
    }
}

/// A signed number written in decimal reads back as itself.
pub proof fn signed_decimal_reads_back(n: int)
    ensures
        signed_number(signed_decimal(n)) == Some(n),
{
    if n < 0 {
        lemma_decimal_digits((-n) as nat);
        assert(signed_decimal(n).skip(1) =~= decimal((-n) as nat));
    } else {
        decimal_reads_back(n as nat);
    }
}

/// The characters of `s`.
pub fn chars_of(s: &str) -> (chars: Vec<char>)
    ensures
        chars@ == s@,
{
    let mut chars: Vec<char> = Vec::new();
    for c in it: s.chars()
        invariant
            chars@ == s@.take(it.index() as int),
            it.seq() == s@,
            it.index() <= s@.len(),
    {
        proof {
            assert(s@.take(it.index() as int).push(c) =~= s@.take(it.index() + 1));
        }
        chars.push(c);
    }
    assert(s@.take(s@.len() as int) =~= s@);
    chars
}

/// Whether `c` is white space, as Unicode has it.
pub open spec fn is_space(c: char) -> bool {
    let n = c as u32;
    0x9 <= n <= 0xd || n == 0x20 || n == 0x85 || n == 0xa0 || n == 0x1680 || 0x2000 <= n <= 0x200a
        || n == 0x2028 || n == 0x2029 || n == 0x202f || n == 0x205f || n == 0x3000
}

/// How many of the first characters of `s` are white space.
pub open spec fn leading_space(s: Seq<char>) -> int
    decreases s.len(),
{
    if s.len() > 0 && is_space(s[0]) {
        1 + leading_space(s.skip(1))
    } else {
        0
    }
}

/// How many of the first characters of `s` are not white space.
pub open spec fn leading_word(s: Seq<char>) -> int
    decreases s.len(),
{
    if s.len() > 0 && !is_space(s[0]) {
        1 + leading_word(s.skip(1))
    } else {
        0
    }
}

/// The first word of `s`: empty where it is white space alone.
pub open spec fn first_word(s: Seq<char>) -> Seq<char> {
    let rest = s.skip(leading_space(s));
    rest.take(leading_word(rest))
}

/// Whether `c` is white space, as Unicode has it.
fn white(c: char) -> (b: bool)
    ensures
        b == is_space(c),
{
    let n: u32 = c as u32;
    (0x9 <= n && n <= 0xd) || n == 0x20 || n == 0x85 || n == 0xa0 || n == 0x1680 || (0x2000 <= n
        && n <= 0x200a) || n == 0x2028 || n == 0x2029 || n == 0x202f || n == 0x205f || n == 0x3000
}

/// The first word of `s`: empty where it is white space alone.
pub fn word<'a>(s: &'a str) -> (w: &'a str)
    ensures
        w@ == first_word(s@),
{
    let chars = chars_of(s);
    let mut start: usize = 0;
    assert(s@.skip(0) =~= s@);
    while start < chars.len() && white(chars[start])
        invariant
            start <= chars.len(),
            chars@ == s@,
            leading_space(s@) == start + leading_space(s@.skip(start as int)),
        decreases chars.len() - start,
    {
        assert(s@.skip(start as int).skip(1) =~= s@.skip(start + 1));
        start = start + 1;
    }
    assert(leading_space(s@) == start);
    let ghost rest = s@.skip(start as int);
    let mut end: usize = start;
    assert(rest.skip(0) =~= rest);
    while end < chars.len() && !white(chars[end])
        invariant
            start <= end <= chars.len(),
            chars@ == s@,
            rest == s@.skip(start as int),
            leading_word(rest) == end - start + leading_word(rest.skip(end - start)),
        decreases chars.len() - end,
    {
        assert(rest[end - start] == chars@[end as int]);
        assert(rest.skip(end - start).skip(1) =~= rest.skip(end - start + 1));
        end = end + 1;
    }
    proof {
        if end < chars.len() {
            assert(rest.skip(end - start)[0] == chars@[end as int]);
        }
        assert(leading_word(rest) == end - start);
        assert(rest.take(end - start) =~= s@.subrange(start as int, end as int));
    }
    s.substring_char(start, end)
}

/// Where the first line of `s` ends: at its line feed, or at the end.
pub open spec fn line_end(s: Seq<char>) -> int
    decreases s.len(),
{
    if s.len() > 0 && s[0] != '\n' {
        1 + line_end(s.skip(1))
    } else {
        0
    }
}

/// What follows `name` in the first line of `s` that starts with it.
pub open spec fn line_after(s: Seq<char>, name: Seq<char>) -> Option<Seq<char>>
    decreases s.len(),
{
    let end = line_end(s);
    if begins_with(s.take(end), name) {
        Some(s.take(end).skip(name.len() as int))
    } else if 0 <= end < s.len() {
        line_after(s.skip(end + 1), name)
    } else {
        None
    }
}

/// What follows `name` in the first line of `s` that starts with it.
pub fn after_name<'a>(s: &'a str, name: &str) -> (rest: Option<&'a str>)
    ensures
        rest is Some <==> line_after(s@, name@) is Some,
        rest matches Some(r) ==> line_after(s@, name@) == Some(r@),
{
    let chars = chars_of(s);
    let mut from: usize = 0;
    assert(s@.skip(0) =~= s@);
    loop
        invariant
            from <= chars.len(),
            chars@ == s@,
            line_after(s@, name@) == line_after(s@.skip(from as int), name@),
        decreases chars.len() - from,
    {
        let ghost tail = s@.skip(from as int);
        let mut end: usize = from;
        assert(tail.skip(0) =~= tail);
        while end < chars.len() && chars[end] != '\n'
            invariant
                from <= end <= chars.len(),
                chars@ == s@,
                tail == s@.skip(from as int),
                line_end(tail) == end - from + line_end(tail.skip(end - from)),
            decreases chars.len() - end,
        {
            assert(tail[end - from] == chars@[end as int]);
            assert(tail.skip(end - from).skip(1) =~= tail.skip(end - from + 1));
            end = end + 1;
        }
        proof {
            if end < chars.len() {
                assert(tail.skip(end - from)[0] == chars@[end as int]);
            }
            assert(line_end(tail) == end - from);
            assert(tail.take(end - from) =~= s@.subrange(from as int, end as int));
        }
        match strip_prefix(s.substring_char(from, end), name) {
            Some(rest) => {
                return Some(rest);
            },
            None => {},
        }
        if end == chars.len() {
            return None;
        }
        assert(tail.skip(end - from + 1) =~= s@.skip(end + 1));
        from = end + 1;
    }
}

/// A text in quotes, with what is not plain in it escaped.
pub uninterp spec fn quoted(text: Seq<char>) -> Seq<char>;

/// `str`'s `Debug`: the text in quotes, escaped.
#[verifier::external_body]
pub(crate) fn debug_text(text: &str) -> (s: String)
    ensures
        s@ == quoted(text@),
{
    format!("{:?}", text)
}

/// How many bytes a text takes in UTF-8.
pub open spec fn utf8_len(s: Seq<char>) -> nat {
    encode_utf8(s).len()
}

/// Two texts one after the other take as many bytes as they take apart.
pub proof fn lemma_utf8_len_concat(a: Seq<char>, b: Seq<char>)
    ensures
        utf8_len(a + b) == utf8_len(a) + utf8_len(b),
    decreases a.len(),
{
    if a.len() == 0 {
        assert(a + b =~= b);
    } else {
        lemma_utf8_len_concat(a.drop_first(), b);
        assert((a + b).drop_first() =~= a.drop_first() + b);
        assert((a + b)[0] == a[0]);
    }
}

/// How many bytes `s` takes in UTF-8.
pub fn byte_len(s: &str) -> (n: usize)
    ensures
        n == utf8_len(s@),
{
    s.as_bytes().len()
}

} // verus!
