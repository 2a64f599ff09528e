//! The lines of the `/metrics` page: what a scrape can rely on of each, and which
//! are always there.

use vstd::prelude::*;
use vstd::string::*;

use super::page::{header, line};
use crate::text::{
    all_digits, begins_with, decimal, digit, fixed_point, fraction, is_digit, lemma_decimal_digits,
    padded, ten_to,
};

verus! {

/// Whether a text holds no line break.
#[verifier::opaque]
pub open spec fn one_line(s: Seq<char>) -> bool {
    forall|i: int| 0 <= i < s.len() ==> #[trigger] s[i] != '\n'
}

/// Whether a text is a number: digits, and behind a point more digits where there
/// is one.
#[verifier::opaque]
pub open spec fn is_number(s: Seq<char>) -> bool {
    all_digits(s) || exists|k: int|
        0 < k < s.len() && #[trigger] s[k] == '.' && all_digits(s.take(k)) && all_digits(
            s.skip(k + 1),
        )
}

/// Whether a text can be the name of a series or a sample: one line, and no
/// comment.
#[verifier::opaque]
pub open spec fn is_name(s: Seq<char>) -> bool {
    one_line(s) && s.len() > 0 && s[0] != '#'
}

/// A comment line: it says what a series means, or what type it has.
pub open spec fn is_comment(l: Seq<char>) -> bool {
    begins_with(l, "# HELP "@) || begins_with(l, "# TYPE "@)
}

/// A sample: no comment, and behind its last part a number.
pub open spec fn is_sample(l: Seq<char>) -> bool {
    l.len() > 0 && l[0] != '#' && exists|k: int|
        0 < k < l.len() && #[trigger] l[k] == ' ' && is_number(l.skip(k + 1))
}

/// Whether a line of `text` stands from `from` to just before `to`.
pub open spec fn is_line(text: Seq<char>, from: int, to: int) -> bool {
    &&& 0 <= from <= to < text.len()
    &&& from == 0 || text[from - 1] == '\n'
    &&& text[to] == '\n'
    &&& one_line(text.subrange(from, to))
}

/// Whether a text is made of whole lines, each a comment or a sample.
#[verifier::opaque]
pub open spec fn parseable(text: Seq<char>) -> bool {
    &&& text.len() > 0 ==> text.last() == '\n'
    &&& forall|from: int, to: int| #[trigger]
        is_line(text, from, to) ==> is_comment(text.subrange(from, to)) || is_sample(
            text.subrange(from, to),
        )
}

/// Whether some line of a text begins with `start`.
#[verifier::opaque]
pub open spec fn opens(text: Seq<char>, start: Seq<char>) -> bool {
    exists|from: int, to: int| #[trigger]
        is_line(text, from, to) && begins_with(text.subrange(from, to), start)
}

/// Whether some line of a text is `l`.
#[verifier::opaque]
pub open spec fn shows(text: Seq<char>, l: Seq<char>) -> bool {
    exists|from: int, to: int| #[trigger]
        is_line(text, from, to) && text.subrange(from, to) == l
}

/// Whether a text with whole lines goes on from another: it is parseable, and
/// every line of the other is still there.
pub open spec fn goes_on(before: Seq<char>, after: Seq<char>) -> bool {
    &&& parseable(after)
    &&& forall|start: Seq<char>| #[trigger] opens(before, start) ==> opens(after, start)
    &&& forall|l: Seq<char>| #[trigger] shows(before, l) ==> shows(after, l)
}

/// How the line that gives a series its type begins.
pub open spec fn type_line(name: Seq<char>) -> Seq<char> {
    "# TYPE "@ + name + " "@
}

pub proof fn lemma_one_line_concat(a: Seq<char>, b: Seq<char>)
    requires
        one_line(a),
        one_line(b),
    ensures
        one_line(a + b),
{
    reveal(one_line);
    assert forall|i: int| 0 <= i < (a + b).len() implies #[trigger] (a + b)[i] != '\n' by {
        if i < a.len() {
            assert((a + b)[i] == a[i]);
        } else {
            assert((a + b)[i] == b[i - a.len()]);
        }
    }
}

/// A name goes on with a text of one line.
pub proof fn lemma_name_concat(name: Seq<char>, rest: Seq<char>)
    requires
        is_name(name),
        one_line(rest),
    ensures
        is_name(name + rest),
{
    reveal(is_name);
    lemma_one_line_concat(name, rest);
}

/// A whole line behind a text of whole lines.
proof fn lemma_append(text: Seq<char>, l: Seq<char>, start: Seq<char>)
    requires
        parseable(text),
        one_line(l),
        is_comment(l) || is_sample(l),
        begins_with(l, start),
    ensures
        goes_on(text, text + l + "\n"@),
        opens(text + l + "\n"@, start),
        shows(text + l + "\n"@, l),
{
    reveal_strlit("\n");
    reveal(one_line);
    reveal(parseable);
    reveal(opens);
    reveal(shows);
    let after = text + l + "\n"@;
    let end = (text.len() + l.len()) as int;
    assert(after[end] == '\n');
    assert forall|from: int, to: int| #[trigger] is_line(after, from, to) implies is_comment(
        after.subrange(from, to),
    ) || is_sample(after.subrange(from, to)) by {
        let sub = after.subrange(from, to);
        if to < text.len() {
            assert(text[to] == after[to]);
            assert(from > 0 ==> text[from - 1] == after[from - 1]);
            assert(sub =~= text.subrange(from, to));
            assert(is_line(text, from, to));
        } else {
            if from < text.len() {
                assert(sub[text.len() - 1 - from] == after[text.len() - 1]);
                assert(after[text.len() - 1] == text.last());
                assert(false);
            }
            if from > text.len() {
                assert(after[from - 1] == l[from - 1 - text.len()]);
                assert(false);
            }
            if to < end {
                assert(after[to] == l[to - text.len()]);
                assert(false);
            }
            assert(sub =~= l);
        }
    }
    assert forall|s: Seq<char>| #[trigger] opens(text, s) implies opens(after, s) by {
        let (from, to) = choose|from: int, to: int| #[trigger]
            is_line(text, from, to) && begins_with(text.subrange(from, to), s);
        assert(after.subrange(from, to) =~= text.subrange(from, to));
        assert(after[to] == text[to]);
        assert(from > 0 ==> after[from - 1] == text[from - 1]);
        assert(is_line(after, from, to));
    }
    assert forall|s: Seq<char>| #[trigger] shows(text, s) implies shows(after, s) by {
        let (from, to) = choose|from: int, to: int| #[trigger]
            is_line(text, from, to) && text.subrange(from, to) == s;
        assert(after.subrange(from, to) =~= text.subrange(from, to));
        assert(after[to] == text[to]);
        assert(from > 0 ==> after[from - 1] == text[from - 1]);
        assert(is_line(after, from, to));
    }
    let from = text.len() as int;
    assert(after.subrange(from, end) =~= l);
    assert(from > 0 ==> after[from - 1] == text.last());
    assert(is_line(after, from, end));
}

/// A header is two comment lines.
pub broadcast proof fn a_header_is_two_comments(
    out: Seq<char>,
    name: Seq<char>,
    help: Seq<char>,
    kind: Seq<char>,
)
    requires
        parseable(out),
        is_name(name),
        one_line(help),
        one_line(kind),
    ensures
        goes_on(out, #[trigger] header(out, name, help, kind)),
        opens(header(out, name, help, kind), type_line(name)),
{
    reveal(header);
    reveal(is_name);
    reveal_strlit("# HELP ");
    reveal_strlit("# TYPE ");
    reveal_strlit("\n# TYPE ");
    reveal_strlit("\n");
    reveal_strlit(" ");
    assert(one_line("# HELP "@) && one_line("# TYPE "@) && one_line(" "@)) by {
        reveal(one_line);
    }
    let first = "# HELP "@ + name + " "@ + help;
    lemma_one_line_concat("# HELP "@, name);
    lemma_one_line_concat("# HELP "@ + name, " "@);
    lemma_one_line_concat("# HELP "@ + name + " "@, help);
    assert(first.subrange(0, 7) =~= "# HELP "@);
    assert(first.subrange(0, 0) =~= Seq::<char>::empty());
    lemma_append(out, first, Seq::empty());
    let middle = out + first + "\n"@;
    let second = type_line(name) + kind;
    lemma_one_line_concat("# TYPE "@, name);
    lemma_one_line_concat("# TYPE "@ + name, " "@);
    lemma_one_line_concat(type_line(name), kind);
    assert(second.subrange(0, 7) =~= "# TYPE "@);
    assert(second.subrange(0, type_line(name).len() as int) =~= type_line(name));
    lemma_append(middle, second, type_line(name));
    assert("\n# TYPE "@ =~= "\n"@ + "# TYPE "@);
    assert(header(out, name, help, kind) =~= middle + second + "\n"@);
}

/// A sample is one line, and begins with its name.
pub broadcast proof fn a_sample_is_one_line(out: Seq<char>, name: Seq<char>, value: Seq<char>)
    requires
        parseable(out),
        is_name(name),
        is_number(value),
    ensures
        goes_on(out, #[trigger] line(out, name, value)),
        opens(line(out, name, value), name + " "@),
        shows(line(out, name, value), name + " "@ + value),
{
    reveal(line);
    reveal(is_name);
    reveal_strlit(" ");
    assert(one_line(" "@)) by {
        reveal(one_line);
    }
    lemma_number_is_one_line(value);
    let l = name + " "@ + value;
    lemma_one_line_concat(name, " "@);
    lemma_one_line_concat(name + " "@, value);
    let k = name.len() as int;
    assert(l[k] == ' ');
    assert(l.skip(k + 1) =~= value);
    assert(l[0] == name[0]);
    assert(is_sample(l));
    assert(l.subrange(0, (name + " "@).len() as int) =~= name + " "@);
    lemma_append(out, l, name + " "@);
    assert(line(out, name, value) =~= out + l + "\n"@);
}

pub proof fn lemma_number_is_one_line(s: Seq<char>)
    requires
        is_number(s),
    ensures
        one_line(s),
{
    reveal(is_number);
    reveal(one_line);
    if !all_digits(s) {
        let k = choose|k: int|
            0 < k < s.len() && #[trigger] s[k] == '.' && all_digits(s.take(k)) && all_digits(
                s.skip(k + 1),
            );
        assert forall|i: int| 0 <= i < s.len() implies #[trigger] s[i] != '\n' by {
            if i < k {
                assert(is_digit(s.take(k)[i]));
            } else if i > k {
                assert(is_digit(s.skip(k + 1)[i - k - 1]));
            }
        }
    }
}

pub broadcast proof fn a_count_is_a_number(n: nat)
    ensures
        is_number(#[trigger] decimal(n)),
{
    reveal(is_number);
    lemma_decimal_digits(n);
}

pub broadcast proof fn a_fraction_is_a_number(n: nat, places: nat)
    ensures
        is_number(#[trigger] fixed_point(n, places)),
{
    let rest = n % ten_to(places);
    let whole = decimal(n / ten_to(places));
    a_count_is_a_number(n / ten_to(places));
    if rest != 0 {
        lemma_ten_to_positive(places);
        lemma_fraction(rest, places);
        lemma_decimal_digits(n / ten_to(places));
        let part = fraction(rest, places);
        let s = whole + seq!['.'] + part;
        let k = whole.len() as int;
        assert(s[k] == '.');
        assert(s.take(k) =~= whole);
        assert(s.skip(k + 1) =~= part);
        assert(is_number(s)) by {
            reveal(is_number);
        }
    }
}

proof fn lemma_ten_to_positive(places: nat)
    ensures
        ten_to(places) >= 1,
    decreases places,
{
    if places > 0 {
        lemma_ten_to_positive((places - 1) as nat);
    }
}

proof fn lemma_fraction(n: nat, places: nat)
    requires
        0 < n < ten_to(places),
    ensures
        all_digits(fraction(n, places)),
    decreases places,
{
    if places > 0 {
        if n % 10 == 0 {
            lemma_fraction(n / 10, (places - 1) as nat);
        } else {
            lemma_padded(n, places);
        }
    }
}

proof fn lemma_padded(n: nat, places: nat)
    ensures
        padded(n, places).len() == places,
        forall|i: int| 0 <= i < places ==> is_digit(#[trigger] padded(n, places)[i]),
    decreases places,
{
    if places > 0 {
        lemma_padded(n / 10, (places - 1) as nat);
        assert(is_digit(digit(n % 10)));
    }
}

} // verus!
