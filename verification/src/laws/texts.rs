//! Numbers and parts of texts.
use vstd::prelude::*;
use crate::text::{
    all_digits, decimal, decimal_int, digits_value, is_space, joined_by, parse_unsigned, split_on,
    trim, trim_end, trim_start,
};

verus! {

/// The digit that stands for a number below ten.
pub open spec fn digit(d: int) -> char {
    "0123456789"@[d]
}

proof fn lemma_digits()
    ensures
        forall|d: nat| d < 10 ==> #[trigger] crate::text::digit_char(d) == digit(d as int),
        forall|d: int|
            0 <= d < 10 ==> crate::text::digit_value(#[trigger] digit(d)) == d
                && crate::text::is_digit(digit(d)),
{
    reveal_strlit("0123456789");
    assert forall|d: nat| d < 10 implies #[trigger] crate::text::digit_char(d) == digit(
        d as int,
    ) by {
        assert(d == 0 || d == 1 || d == 2 || d == 3 || d == 4 || d == 5 || d == 6 || d == 7 || d
            == 8 || d == 9);
    }
    assert forall|d: int| 0 <= d < 10 implies crate::text::digit_value(#[trigger] digit(d)) == d
        && crate::text::is_digit(digit(d)) by {
        assert(d == 0 || d == 1 || d == 2 || d == 3 || d == 4 || d == 5 || d == 6 || d == 7 || d
            == 8 || d == 9);
    }
}

/// A number is written with its tens before its ones.
pub proof fn numbers_are_written_in_digits(tens: nat, ones: nat)
    requires
        ones < 10,
    ensures
        decimal(ones) == seq![digit(ones as int)],
        tens > 0 ==> decimal(tens * 10 + ones) == decimal(tens).push(digit(ones as int)),
{
    lemma_digits();
    if tens > 0 {
        let n = tens * 10 + ones;
        assert(n / 10 == tens && n % 10 == ones);
    }
}

/// Digits are read as tens before ones.
pub proof fn digits_are_read_as_numbers(text: Seq<char>, ones: nat)
    requires
        ones < 10,
    ensures
        digits_value(text.push(digit(ones as int))) == digits_value(text) * 10 + ones,
{
    lemma_digits();
    assert(text.push(digit(ones as int)).drop_last() =~= text);
}

/// A number that was written is read as itself.
pub proof fn written_numbers_are_read_back(n: nat)
    ensures
        decimal(n).len() > 0,
        all_digits(decimal(n)),
        digits_value(decimal(n)) == n,
        forall|max: nat| n <= max ==> #[trigger] parse_unsigned(decimal(n), max) == Some(n),
    decreases n,
{
    lemma_digits();
    if n < 10 {
        assert(decimal(n) =~= seq![digit(n as int)]);
        digits_are_read_as_numbers(Seq::empty(), n);
        assert(decimal(n) =~= Seq::<char>::empty().push(digit(n as int)));
    } else {
        written_numbers_are_read_back(n / 10);
        assert(decimal(n).drop_last() =~= decimal(n / 10));
        assert(decimal(n).last() == digit((n % 10) as int));
        digits_are_read_as_numbers(decimal(n / 10), n % 10);
        assert(decimal(n) =~= decimal(n / 10).push(digit((n % 10) as int)));
        assert forall|i: int| 0 <= i < decimal(n).len() implies crate::text::is_digit(
            #[trigger] decimal(n)[i],
        ) by {
            if i < decimal(n / 10).len() {
                assert(decimal(n)[i] == decimal(n / 10)[i]);
            }
        }
    }
    assert(decimal(n)[0] != '+') by {
        assert(crate::text::is_digit(decimal(n)[0]));
    }
}

/// Different numbers are written differently.
pub proof fn different_numbers_look_different(a: nat, b: nat)
    requires
        a != b,
    ensures
        decimal(a) != decimal(b),
{
    written_numbers_are_read_back(a);
    written_numbers_are_read_back(b);
}

/// Different whole numbers are written differently, a negative one with a sign
/// before its digits.
pub proof fn different_integers_look_different(a: int, b: int)
    ensures
        a >= 0 ==> decimal_int(a) == decimal(a as nat),
        a < 0 ==> decimal_int(a) == seq!['-'] + decimal((-a) as nat),
        a != b ==> decimal_int(a) != decimal_int(b),
{
    if a != b {
        lemma_sign(a);
        lemma_sign(b);
        if a >= 0 && b >= 0 {
            different_numbers_look_different(a as nat, b as nat);
        } else if a < 0 && b < 0 {
            different_numbers_look_different((-a) as nat, (-b) as nat);
            if decimal_int(a) == decimal_int(b) {
                assert(decimal_int(a).skip(1) =~= decimal((-a) as nat));
                assert(decimal_int(b).skip(1) =~= decimal((-b) as nat));
            }
        } else {
            assert(decimal_int(a)[0] != decimal_int(b)[0]);
        }
    }
}

proof fn lemma_sign(a: int)
    ensures
        decimal_int(a).len() > 0,
        (decimal_int(a)[0] == '-') == (a < 0),
{
    if a >= 0 {
        written_numbers_are_read_back(a as nat);
        assert(crate::text::is_digit(decimal(a as nat)[0]));
    }
}

/// The parts of a text, put together with the mark between them, are the text,
/// and no part holds the mark.
pub proof fn parts_make_up_the_text(text: Seq<char>, mark: char)
    ensures
        split_on(text, mark).len() >= 1,
        joined_by(split_on(text, mark), seq![mark]) == text,
        forall|i: int, j: int|
            0 <= i < split_on(text, mark).len() && 0 <= j < split_on(text, mark)[i].len() ==> (
            #[trigger] split_on(text, mark)[i][j]) != mark,
    decreases text.len(),
{
    let parts = split_on(text, mark);
    if text.len() == 0 {
        assert(parts[0] =~= text);
    } else {
        let rest = split_on(text.skip(1), mark);
        parts_make_up_the_text(text.skip(1), mark);
        if text[0] == mark {
            lemma_joined_front(Seq::empty(), rest, mark);
            assert(parts =~= seq![Seq::<char>::empty()] + rest);
            assert(Seq::<char>::empty() + seq![mark] + text.skip(1) =~= text);
            assert forall|i: int, j: int|
                0 <= i < parts.len() && 0 <= j < parts[i].len() implies (#[trigger] parts[i][j])
                != mark by {
                if i > 0 {
                    assert(parts[i][j] == rest[i - 1][j]);
                }
            }
        } else {
            lemma_joined_head(text[0], rest, mark);
            assert(seq![text[0]] + text.skip(1) =~= text);
            assert forall|i: int, j: int|
                0 <= i < parts.len() && 0 <= j < parts[i].len() implies (#[trigger] parts[i][j])
                != mark by {
                if i > 0 {
                    assert(parts[i] == rest[i]);
                    assert(rest[i][j] != mark);
                } else if j > 0 {
                    assert(parts[0][j] == rest[0][j - 1]);
                    assert(rest[0][j - 1] != mark);
                }
            }
        }
    }
}

proof fn lemma_joined_front(head: Seq<char>, rest: Seq<Seq<char>>, mark: char)
    requires
        rest.len() > 0,
    ensures
        joined_by(seq![head] + rest, seq![mark]) == head + seq![mark] + joined_by(
            rest,
            seq![mark],
        ),
    decreases rest.len(),
{
    let all = seq![head] + rest;
    if rest.len() == 1 {
        assert(all.drop_last() =~= seq![head]);
        assert(joined_by(seq![head], seq![mark]) == head);
        assert(all.last() == rest[0]);
    } else {
        lemma_joined_front(head, rest.drop_last(), mark);
        assert(all.drop_last() =~= seq![head] + rest.drop_last());
        assert(all.last() == rest.last());
        assert((head + seq![mark] + joined_by(rest.drop_last(), seq![mark])) + seq![mark]
            + rest.last() =~= head + seq![mark] + (joined_by(rest.drop_last(), seq![mark])
            + seq![mark] + rest.last()));
    }
}

proof fn lemma_joined_head(c: char, rest: Seq<Seq<char>>, mark: char)
    requires
        rest.len() > 0,
    ensures
        joined_by(seq![seq![c] + rest[0]] + rest.skip(1), seq![mark]) == seq![c] + joined_by(
            rest,
            seq![mark],
        ),
    decreases rest.len(),
{
    let all = seq![seq![c] + rest[0]] + rest.skip(1);
    if rest.len() > 1 {
        let front = rest.drop_last();
        lemma_joined_head(c, front, mark);
        assert(all.drop_last() =~= seq![seq![c] + front[0]] + front.skip(1));
        assert(all.last() == rest.last());
        assert((seq![c] + joined_by(front, seq![mark])) + seq![mark] + rest.last() =~= seq![c] + (
        joined_by(front, seq![mark]) + seq![mark] + rest.last()));
    }
}

/// Trimming takes off spaces at both ends, all of them, and nothing else.
pub proof fn trimming_takes_off_the_spaces(text: Seq<char>)
    ensures
        ({
            let inner = trim(text);
            &&& inner.len() > 0 ==> !is_space(inner[0]) && !is_space(inner.last())
            &&& exists|from: int, to: int|
                0 <= from <= to <= text.len() && inner == #[trigger] text.subrange(from, to) && (
                forall|i: int| 0 <= i < from ==> is_space(#[trigger] text[i])) && forall|i: int|
                    to <= i < text.len() ==> is_space(#[trigger] text[i])
        }),
{
    lemma_trim_start(text);
    let rest = trim_start(text);
    lemma_trim_end(rest);
    let from = text.len() - rest.len();
    let to = from + trim(text).len();
    assert(trim(text) =~= text.subrange(from, to));
    assert forall|i: int| to <= i < text.len() implies is_space(#[trigger] text[i]) by {
        assert(rest[i - from] == text[i]);
    }
}

proof fn lemma_trim_start(text: Seq<char>)
    ensures
        trim_start(text).len() <= text.len(),
        trim_start(text) == text.skip(text.len() - trim_start(text).len()),
        forall|i: int| 0 <= i < text.len() - trim_start(text).len() ==> is_space(#[trigger] text[i]),
        trim_start(text).len() > 0 ==> !is_space(trim_start(text)[0]),
    decreases text.len(),
{
    if text.len() > 0 && is_space(text[0]) {
        lemma_trim_start(text.skip(1));
        let n = text.len() - trim_start(text).len();
        assert(text.skip(1).skip(n - 1) =~= text.skip(n));
        assert forall|i: int| 0 <= i < n implies is_space(#[trigger] text[i]) by {
            if i > 0 {
                assert(text.skip(1)[i - 1] == text[i]);
            }
        }
    } else {
        assert(text.skip(0) =~= text);
    }
}

proof fn lemma_trim_end(text: Seq<char>)
    ensures
        trim_end(text).len() <= text.len(),
        trim_end(text) == text.take(trim_end(text).len() as int),
        forall|i: int| trim_end(text).len() <= i < text.len() ==> is_space(#[trigger] text[i]),
        trim_end(text).len() > 0 ==> !is_space(trim_end(text).last()),
    decreases text.len(),
{
    if text.len() > 0 && is_space(text.last()) {
        lemma_trim_end(text.drop_last());
        let n = trim_end(text).len() as int;
        assert(text.drop_last().take(n) =~= text.take(n));
        assert forall|i: int| n <= i < text.len() implies is_space(#[trigger] text[i]) by {
            if i < text.len() - 1 {
                assert(text.drop_last()[i] == text[i]);
            }
        }
    } else {
        assert(text.take(text.len() as int) =~= text);
    }
}

/// A text with no space at either end stays as it is.
pub proof fn trimmed_texts_stay(text: Seq<char>)
    requires
        text.len() > 0 ==> !is_space(text[0]) && !is_space(text.last()),
    ensures
        trim(text) == text,
{
}

} // verus!
