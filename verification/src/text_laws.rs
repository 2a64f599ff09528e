//! What numbers written as text mean, and what joined texts hold.

use vstd::prelude::*;
use vstd::string::*;

use crate::text::{
    after_name, all_digits, begins_with, decimal, decimal_text, digit, digits_value, first_word,
    fixed_point, fraction, is_digit, is_space, join, leading_space, leading_word,
    lemma_decimal_digits, line_after, line_end, padded, parse_i32, parse_i64, parse_u64, push_fixed_point,
    signed_decimal, ten_to, word,
};

verus! {

/// A number is written in digits, without a zero in front of another digit, and
/// reads back as itself.
pub proof fn a_number_is_written_in_its_digits(n: u64, s: String, back: &str, read: Option<u64>)
    requires
        call_ensures(decimal_text, (n,), s),
        call_ensures(parse_u64, (back,), read),
        back@ == s@,
    ensures
        all_digits(s@),
        s@.len() > 1 ==> s@[0] != '0',
        read == Some(n),
{
    lemma_decimal_digits(n as nat);
    crate::text::decimal_reads_back(n as nat);
    lemma_no_leading_zero(n as nat);
}

proof fn lemma_no_leading_zero(n: nat)
    ensures
        n > 0 ==> decimal(n)[0] != '0',
        decimal(n).len() > 1 ==> decimal(n)[0] != '0',
        decimal(n).len() > 0,
    decreases n,
{
    if n >= 10 {
        lemma_no_leading_zero(n / 10);
        assert(decimal(n)[0] == decimal(n / 10)[0]);
    } else {
        assert(decimal(n)[0] == digit(n));
        assert(n > 0 ==> digit(n) != '0');
    }
}

/// A negative number is written with a minus in front, and reads back as itself.
pub proof fn a_signed_number_reads_back(n: i64, s: &str, read: Option<i64>)
    requires
        call_ensures(parse_i64, (s,), read),
        s@ == signed_decimal(n as int),
    ensures
        read == Some(n),
        n < 0 <==> s@[0] == '-',
{
    crate::text::signed_decimal_reads_back(n as int);
    if n >= 0 {
        lemma_decimal_digits(n as nat);
        assert(is_digit(decimal(n as nat)[0]));
    }
}

/// Whether a text writes `n / 10^places`: its whole part in digits, and behind a
/// point, where there is a rest, the rest in digits that do not end in a zero.
pub open spec fn writes_fraction(s: Seq<char>, n: nat, places: nat) -> bool {
    if n % ten_to(places) == 0 {
        all_digits(s) && digits_value(s) * ten_to(places) == n
    } else {
        exists|k: int|
            {
                &&& 0 < k < s.len() - 1
                &&& #[trigger] s[k] == '.'
                &&& all_digits(s.take(k))
                &&& all_digits(s.skip(k + 1))
                &&& s.last() != '0'
                &&& s.len() - k - 1 <= places
                &&& digits_value(s.take(k)) == n / ten_to(places)
                &&& digits_value(s.skip(k + 1)) * ten_to((places - (s.len() - k - 1)) as nat) == n
                    % ten_to(places)
            }
    }
}

/// A number of seconds is written exactly from the parts it is counted in.
pub proof fn a_fraction_is_written_exactly(out: &mut String, n: u64, places: u32)
    requires
        call_ensures(push_fixed_point, (out, n, places), ()),
    ensures
        final(out)@.len() >= old(out)@.len(),
        final(out)@.take(old(out)@.len() as int) == old(out)@,
        writes_fraction(final(out)@.skip(old(out)@.len() as int), n as nat, places as nat),
{
    let s = fixed_point(n as nat, places as nat);
    lemma_writes_fraction(n as nat, places as nat);
    assert(final(out)@.take(old(out)@.len() as int) =~= old(out)@);
    assert(final(out)@.skip(old(out)@.len() as int) =~= s);
}

proof fn lemma_writes_fraction(n: nat, places: nat)
    ensures
        writes_fraction(fixed_point(n, places), n, places),
{
    let t = ten_to(places);
    lemma_ten_to(places);
    let q = n / t;
    let rest = n % t;
    lemma_decimal_digits(q);
    assert(n == q * t + rest && 0 <= rest < t) by (nonlinear_arith)
        requires
            q == n / t,
            rest == n % t,
            t > 0,
    ;
    if rest != 0 {
        let whole = decimal(q);
        let part = fraction(rest, places);
        lemma_fraction_value(rest, places);
        let s = whole + seq!['.'] + part;
        let k = whole.len() as int;
        assert(s[k] == '.');
        assert(s.take(k) =~= whole);
        assert(s.skip(k + 1) =~= part);
        assert(s.last() == part.last());
    }
}

proof fn lemma_ten_to(places: nat)
    ensures
        ten_to(places) >= 1,
    decreases places,
{
    if places > 0 {
        lemma_ten_to((places - 1) as nat);
    }
}

proof fn lemma_fraction_value(n: nat, places: nat)
    requires
        0 < n < ten_to(places),
    ensures
        ({
            let s = fraction(n, places);
            &&& all_digits(s)
            &&& s.len() <= places
            &&& s.last() != '0'
            &&& digits_value(s) * ten_to((places - s.len()) as nat) == n
        }),
    decreases places,
{
    if places > 0 {
        if n % 10 == 0 {
            let before = fraction(n / 10, (places - 1) as nat);
            lemma_fraction_value(n / 10, (places - 1) as nat);
            let k = (places - 1 - before.len()) as nat;
            assert(ten_to((k + 1) as nat) == 10 * ten_to(k));
            let v = digits_value(before);
            let t = ten_to(k);
            assert(v * (10 * t) == 10 * (v * t)) by (nonlinear_arith);
            assert(fraction(n, places) == before);
            assert((places - before.len()) as nat == (k + 1) as nat);
            assert(v * t == n / 10);
        } else {
            lemma_padded_value(n, places);
            let s = padded(n, places);
            assert(ten_to(0) == 1);
            assert(digits_value(s) * 1 == n);
            assert((places - s.len()) as nat == 0);
            assert(s.last() == digit(n % 10));
            assert(digit(n % 10) != '0');
        }
    }
}

proof fn lemma_padded_value(n: nat, places: nat)
    requires
        n < ten_to(places),
    ensures
        padded(n, places).len() == places,
        forall|i: int| 0 <= i < places ==> is_digit(#[trigger] padded(n, places)[i]),
        digits_value(padded(n, places)) == n,
    decreases places,
{
    if places > 0 {
        lemma_padded_value(n / 10, (places - 1) as nat);
        let s = padded(n, places);
        let d = digit(n % 10);
        assert(is_digit(d) && (d as u32) - ('0' as u32) == n % 10);
        assert(s.drop_last() =~= padded(n / 10, (places - 1) as nat));
        assert(s.last() == d);
    }
}

/// Joined texts are the texts in order with the separator between each two: none is
/// nothing, one is itself, and one more comes behind a separator.
pub proof fn joining_puts_the_separator_between(
    parts: Vec<String>,
    more: Vec<String>,
    separator: &str,
    a: String,
    b: String,
)
    requires
        call_ensures(join, (&parts, separator), a),
        call_ensures(join, (&more, separator), b),
        more@.len() == parts@.len() + 1,
        more@.drop_last() == parts@,
    ensures
        parts@.len() == 0 ==> a@.len() == 0 && b@ == more@[0]@,
        parts@.len() > 0 ==> b@ == a@ + separator@ + more@.last()@,
{
    let x = crate::text::texts(parts@);
    let y = crate::text::texts(more@);
    assert(y.drop_last() =~= x) by {
        assert forall|i: int| 0 <= i < x.len() implies y[i] == x[i] by {
            assert(more@.drop_last()[i] == parts@[i]);
        }
    }
    assert(y.last() == more@.last()@);
}

/// The characters Unicode counts as white space.
pub open spec fn is_white(c: char) -> bool {
    let n = c as u32;
    ||| '\t' as u32 <= n <= '\r' as u32 || n == ' ' as u32
    ||| n == '\u{85}' as u32 || n == '\u{a0}' as u32 || n == '\u{1680}' as u32
    ||| '\u{2000}' as u32 <= n <= '\u{200a}' as u32
    ||| n == '\u{2028}' as u32 || n == '\u{2029}' as u32 || n == '\u{202f}' as u32
    ||| n == '\u{205f}' as u32 || n == '\u{3000}' as u32
}

/// Whether `w` is the first run of characters of `s` that are not white space.
pub open spec fn is_first_word(s: Seq<char>, w: Seq<char>) -> bool {
    exists|start: int| #[trigger] is_word_at(s, w, start)
}

/// Whether the first word of `s` starts at `start` and is `w`.
pub open spec fn is_word_at(s: Seq<char>, w: Seq<char>, start: int) -> bool {
    let end = start + w.len();
    &&& 0 <= start && end <= s.len()
    &&& forall|i: int| 0 <= i < start ==> is_white(#[trigger] s[i])
    &&& w == s.subrange(start, end)
    &&& forall|i: int| 0 <= i < w.len() ==> !is_white(#[trigger] w[i])
    &&& end == s.len() || is_white(s[end])
    &&& w.len() == 0 ==> start == s.len()
}

/// The first word of a text is its first run of characters that are not white space.
pub proof fn a_word_is_the_first_run_without_white_space(s: &str, w: &str)
    requires
        call_ensures(word, (s,), w),
    ensures
        is_first_word(s@, w@),
{
    lemma_first_word(s@);
}

pub proof fn lemma_first_word(s: Seq<char>)
    ensures
        is_first_word(s, first_word(s)),
{
    let start = leading_space(s);
    lemma_leading_space(s);
    let rest = s.skip(start);
    lemma_leading_word(rest);
    let w = first_word(s);
    assert(w =~= s.subrange(start, start + w.len()));
    assert forall|i: int| 0 <= i < w.len() implies !is_white(#[trigger] w[i]) by {
        assert(w[i] == rest[i]);
    }
    if start + w.len() < s.len() {
        assert(rest[w.len() as int] == s[start + w.len()]);
    }
    assert(is_word_at(s, w, start));
}

proof fn lemma_leading_space(s: Seq<char>)
    ensures
        0 <= leading_space(s) <= s.len(),
        forall|i: int| 0 <= i < leading_space(s) ==> is_white(#[trigger] s[i]),
        leading_space(s) < s.len() ==> !is_white(s[leading_space(s)]),
    decreases s.len(),
{
    if s.len() > 0 && is_space(s[0]) {
        lemma_leading_space(s.skip(1));
        assert forall|i: int| 0 <= i < leading_space(s) implies is_white(#[trigger] s[i]) by {
            if i > 0 {
                assert(s.skip(1)[i - 1] == s[i]);
            }
        }
    }
}

proof fn lemma_leading_word(s: Seq<char>)
    ensures
        0 <= leading_word(s) <= s.len(),
        forall|i: int| 0 <= i < leading_word(s) ==> !is_white(#[trigger] s[i]),
        leading_word(s) < s.len() ==> is_white(s[leading_word(s)]),
    decreases s.len(),
{
    if s.len() > 0 && !is_space(s[0]) {
        lemma_leading_word(s.skip(1));
        assert forall|i: int| 0 <= i < leading_word(s) implies !is_white(#[trigger] s[i]) by {
            if i > 0 {
                assert(s.skip(1)[i - 1] == s[i]);
            }
        }
    }
}

/// Whether a line of `s` starts at `k`, and starts with `name`.
pub open spec fn line_starts_with(s: Seq<char>, k: int, name: Seq<char>) -> bool {
    &&& 0 <= k && k + name.len() <= s.len()
    &&& k == 0 || s[k - 1] == '\n'
    &&& s.subrange(k, k + name.len()) == name
}

/// Whether `r` is what stands from `p` up to the end of the line.
pub open spec fn is_rest_of_line(s: Seq<char>, p: int, r: Seq<char>) -> bool {
    let end = p + r.len();
    &&& 0 <= p && end <= s.len()
    &&& r == s.subrange(p, end)
    &&& forall|i: int| 0 <= i < r.len() ==> #[trigger] r[i] != '\n'
    &&& end == s.len() || s[end] == '\n'
}

/// Whether `k` is where the first line of `s` starts that starts with `name`.
pub open spec fn is_first_line_with(s: Seq<char>, k: int, name: Seq<char>) -> bool {
    &&& line_starts_with(s, k, name)
    &&& forall|j: int| 0 <= j < k ==> !#[trigger] line_starts_with(s, j, name)
}

/// What follows a name is found in the first line that starts with it, up to the
/// line's end, and nothing is found where no line does.
pub proof fn a_line_is_found_by_the_name_it_starts_with(s: &str, name: &str, rest: Option<&str>)
    requires
        call_ensures(after_name, (s, name), rest),
        !name@.contains('\n'),
    ensures
        rest is None <==> forall|j: int| !#[trigger] line_starts_with(s@, j, name@),
        rest matches Some(r) ==> exists|k: int|
            #[trigger] is_first_line_with(s@, k, name@) && is_rest_of_line(
                s@,
                k + name@.len(),
                r@,
            ),
{
    let k = lemma_line_after(s@, name@);
    if rest is Some {
        assert(is_first_line_with(s@, k, name@));
        assert(line_starts_with(s@, k, name@));
    }
}

proof fn lemma_line_end(s: Seq<char>)
    ensures
        0 <= line_end(s) <= s.len(),
        forall|i: int| 0 <= i < line_end(s) ==> #[trigger] s[i] != '\n',
        line_end(s) < s.len() ==> s[line_end(s)] == '\n',
    decreases s.len(),
{
    if s.len() > 0 && s[0] != '\n' {
        lemma_line_end(s.skip(1));
        assert forall|i: int| 0 <= i < line_end(s) implies #[trigger] s[i] != '\n' by {
            if i > 0 {
                assert(s.skip(1)[i - 1] == s[i]);
            }
        }
    }
}

pub proof fn lemma_line_after(s: Seq<char>, name: Seq<char>) -> (k: int)
    requires
        !name.contains('\n'),
    ensures
        match line_after(s, name) {
            Some(r) => is_first_line_with(s, k, name) && is_rest_of_line(s, k + name.len(), r),
            None => forall|j: int| !#[trigger] line_starts_with(s, j, name),
        },
    decreases s.len(),
{
    let end = line_end(s);
    lemma_line_end(s);
    let line = s.take(end);
    if begins_with(line, name) {
        assert(s.subrange(0, name.len() as int) =~= line.subrange(0, name.len() as int));
        let r = line.skip(name.len() as int);
        assert(r =~= s.subrange(name.len() as int, name.len() as int + r.len()));
        assert forall|i: int| 0 <= i < r.len() implies #[trigger] r[i] != '\n' by {
            assert(r[i] == s[name.len() + i]);
        }
        0
    } else {
        assert(!line_starts_with(s, 0, name)) by {
            if line_starts_with(s, 0, name) {
                if end < name.len() {
                    assert(name[end] == s[end]);
                    assert(name.contains('\n'));
                } else {
                    assert(line.subrange(0, name.len() as int) =~= s.subrange(0, name.len() as int));
                }
            }
        }
        assert forall|j: int| 0 <= j <= end implies !#[trigger] line_starts_with(s, j, name) by {
            if j > 0 {
                assert(s[j - 1] != '\n');
            }
        }
        if end < s.len() {
            let t = s.skip(end + 1);
            let k = lemma_line_after(t, name);
            assert forall|j: int| j > end implies #[trigger] line_starts_with(s, j, name)
                == line_starts_with(t, j - end - 1, name) by {
                if j + name.len() <= s.len() {
                    assert(s.subrange(j, j + name.len()) =~= t.subrange(
                        j - end - 1,
                        j - end - 1 + name.len(),
                    ));
                }
                if j > end + 1 && j <= s.len() {
                    assert(s[j - 1] == t[j - end - 2]);
                }
            }
            match line_after(t, name) {
                Some(r) => {
                    let p = k + name.len();
                    assert(line_starts_with(t, k, name));
                    assert(line_starts_with(s, k + end + 1, name));
                    assert(t.subrange(p, p + r.len()) =~= s.subrange(
                        p + end + 1,
                        p + end + 1 + r.len(),
                    ));
                    if p + r.len() < t.len() {
                        assert(t[p + r.len()] == s[p + end + 1 + r.len()]);
                    }
                },
                None => {
                    assert forall|j: int| !#[trigger] line_starts_with(s, j, name) by {
                        if j > end {
                            assert(!line_starts_with(t, j - end - 1, name));
                        }
                    }
                },
            }
            k + end + 1
        } else {
            0
        }
    }
}

/// What the characters of `s` from `k` on count for, each by its place.
pub open spec fn places_value(s: Seq<char>, k: int) -> nat
    decreases s.len() - k,
{
    if 0 <= k < s.len() {
        ((s[k] as u32) - ('0' as u32)) as nat * ten_to((s.len() - 1 - k) as nat) + places_value(
            s,
            k + 1,
        )
    } else {
        0
    }
}

/// Whether `s` writes `n`: in the characters from zero to nine and no other, each
/// counting by its place.
pub open spec fn writes_number(s: Seq<char>, n: int) -> bool {
    &&& s.len() > 0
    &&& forall|i: int| 0 <= i < s.len() ==> '0' <= #[trigger] s[i] && s[i] <= '9'
    &&& n == places_value(s, 0)
}

/// Whether `s` writes `n`, behind a sign where it has one.
pub open spec fn writes_signed(s: Seq<char>, n: int) -> bool {
    ||| writes_number(s, n)
    ||| s.len() > 0 && s[0] == '+' && writes_number(s.skip(1), n)
    ||| s.len() > 0 && s[0] == '-' && writes_number(s.skip(1), -n)
}

/// A number is read off a text that writes it, and off no other.
pub proof fn a_number_is_read_off_what_writes_it(
    s: &str,
    n: int,
    unsigned: Option<u64>,
    long: Option<i64>,
    short: Option<i32>,
)
    requires
        call_ensures(parse_u64, (s,), unsigned),
        call_ensures(parse_i64, (s,), long),
        call_ensures(parse_i32, (s,), short),
    ensures
        unsigned is Some && unsigned->0 == n <==> 0 <= n <= u64::MAX && writes_signed(s@, n)
            && s@[0] != '-',
        long is Some && long->0 == n <==> i64::MIN <= n <= i64::MAX && writes_signed(s@, n),
        short is Some && short->0 == n <==> i32::MIN <= n <= i32::MAX && writes_signed(s@, n),
{
    lemma_places(s@, 0);
    if s@.len() > 0 {
        lemma_places(s@.skip(1), 0);
        assert(s@.skip(1).take(0) =~= Seq::<char>::empty());
        if s@[0] == '+' || s@[0] == '-' {
            assert(!is_digit(s@[0]));
        }
    }
    assert(s@.take(0) =~= Seq::<char>::empty());
    assert(digits_value(Seq::<char>::empty()) == 0);
}

proof fn lemma_places(s: Seq<char>, k: int)
    requires
        0 <= k <= s.len(),
    ensures
        all_digits(s) ==> digits_value(s) == digits_value(s.take(k)) * ten_to(
            (s.len() - k) as nat,
        ) + places_value(s, k),
    decreases s.len() - k,
{
    if all_digits(s) {
        if k == s.len() {
            assert(s.take(k) =~= s);
            assert(ten_to(0) == 1);
            assert(digits_value(s) * 1 == digits_value(s));
        } else {
            lemma_places(s, k + 1);
            assert(s.take(k + 1).drop_last() =~= s.take(k));
            assert(s.take(k + 1).last() == s[k]);
            assert(is_digit(s[k]));
            let before = digits_value(s.take(k));
            let d = ((s[k] as u32) - ('0' as u32)) as nat;
            let rest = ten_to((s.len() - 1 - k) as nat);
            assert(ten_to((s.len() - k) as nat) == 10 * rest);
            assert(digits_value(s.take(k + 1)) == 10 * before + d);
            assert((10 * before + d) * rest == before * (10 * rest) + d * rest)
                by (nonlinear_arith);
        }
    }
}

} // verus!
