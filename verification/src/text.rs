//! The textual form of a program: integer literals separated by commas,
//! with optional white space around the whole text and around each literal.
use vstd::prelude::*;

use crate::machine::{fits, Int};

verus! {

/// The text holds an element that is no integer literal.
#[derive(Copy, Clone, PartialEq, Eq, Debug, Structural)]
pub struct ParseError {
    /// The index of the first such element, counted from 0.
    pub element: usize,
}

/// White space: the blank and the five ASCII control characters from
/// horizontal tab to carriage return.
pub open spec fn is_space(byte: u8) -> bool {
    byte == 32 || 9 <= byte <= 13
}

/// The ten decimal digits.
pub open spec fn is_digit(byte: u8) -> bool {
    48 <= byte <= 57
}

/// `s` without the white space it begins with.
pub open spec fn trim_start(s: Seq<u8>) -> Seq<u8>
    decreases s.len(),
{
    if s.len() > 0 && is_space(s[0]) {
        trim_start(s.drop_first())
    } else {
        s
    }
}

/// `s` without the white space it ends with.
pub open spec fn trim_end(s: Seq<u8>) -> Seq<u8>
    decreases s.len(),
{
    if s.len() > 0 && is_space(s.last()) {
        trim_end(s.drop_last())
    } else {
        s
    }
}

/// `s` without the white space around it.
pub open spec fn trim(s: Seq<u8>) -> Seq<u8> {
    trim_end(trim_start(s))
}

/// How many bytes stand before the first comma of `s`, or in all of `s`
/// where it holds none.
pub open spec fn field_len(s: Seq<u8>) -> nat
    decreases s.len(),
{
    if s.len() == 0 || s[0] == 44 {
        0
    } else {
        1 + field_len(s.drop_first())
    }
}

/// The pieces that the commas cut `s` into. There is always at least one;
/// a piece may be empty.
pub open spec fn fields(s: Seq<u8>) -> Seq<Seq<u8>>
    decreases s.len(),
{
    let n = field_len(s);
    if n >= s.len() {
        seq![s]
    } else {
        seq![s.take(n as int)] + fields(s.skip(n as int + 1))
    }
}

/// The number that a run of decimal digits denotes.
pub open spec fn digits_value(s: Seq<u8>) -> int
    decreases s.len(),
{
    if s.len() == 0 {
        0
    } else {
        10 * digits_value(s.drop_last()) + (s.last() - 48)
    }
}

/// Whether every byte of `s` is a decimal digit.
pub open spec fn all_digits(s: Seq<u8>) -> bool {
    forall|i: int| 0 <= i < s.len() ==> is_digit(#[trigger] s[i])
}

/// The integer that a literal denotes: an optional `+` or `-`, then at
/// least one digit and nothing else, and the number must be one of the
/// machine's integers.
pub open spec fn literal_value(s: Seq<u8>) -> Option<Int> {
    let negative = s.len() > 0 && s[0] == 45;
    let signed = s.len() > 0 && (s[0] == 45 || s[0] == 43);
    let digits = if signed { s.drop_first() } else { s };
    let value = if negative { -digits_value(digits) } else { digits_value(digits) };
    if digits.len() > 0 && all_digits(digits) && fits(value) {
        Some(value as Int)
    } else {
        None
    }
}

/// What each element of a program text denotes, in order.
pub open spec fn elements(text: Seq<u8>) -> Seq<Option<Int>> {
    fields(trim(text)).map_values(|field: Seq<u8>| literal_value(trim(field)))
}

/// The index of the first element that denotes nothing, or the number of
/// elements where each denotes an integer.
pub open spec fn first_invalid(elements: Seq<Option<Int>>) -> nat
    decreases elements.len(),
{
    if elements.len() == 0 || elements[0] is None {
        0
    } else {
        1 + first_invalid(elements.drop_first())
    }
}

/// The program that a text denotes, or the index of its first element that
/// is no integer literal.
pub open spec fn parse_spec(text: Seq<u8>) -> Result<Seq<Int>, nat> {
    let elements = elements(text);
    let invalid = first_invalid(elements);
    if invalid == elements.len() {
        Ok(elements.map_values(|element: Option<Int>| element->0))
    } else {
        Err(invalid)
    }
}

proof fn lemma_first_invalid(elements: Seq<Option<Int>>, k: nat)
    requires
        k <= elements.len(),
        forall|j: int| 0 <= j < k ==> (#[trigger] elements[j]) is Some,
        k == elements.len() || elements[k as int] is None,
    ensures
        first_invalid(elements) == k,
    decreases k,
{
    if k > 0 {
        let rest = elements.drop_first();
        assert forall|j: int| 0 <= j < k - 1 implies (#[trigger] rest[j]) is Some by {
            assert(rest[j] == elements[j + 1]);
        }
        lemma_first_invalid(rest, (k - 1) as nat);
    }
}

proof fn lemma_field_len_bound(s: Seq<u8>)
    ensures
        field_len(s) <= s.len(),
        field_len(s) < s.len() ==> s[field_len(s) as int] == 44,
    decreases s.len(),
{
    if s.len() > 0 && s[0] != 44 {
        lemma_field_len_bound(s.drop_first());
    }
}

/// A run of digits denotes no less than any run it begins with.
proof fn lemma_digits_grow(s: Seq<u8>, k: int)
    requires
        all_digits(s),
        0 <= k <= s.len(),
    ensures
        0 <= digits_value(s.take(k)) <= digits_value(s),
    decreases s.len() - k,
{
    if k == s.len() {
        assert(s.take(k) =~= s);
        lemma_digits_nonnegative(s);
    } else {
        let init = s.drop_last();
        assert(init.take(k) =~= s.take(k));
        assert(is_digit(s[s.len() - 1]));
        assert forall|i: int| 0 <= i < init.len() implies is_digit(#[trigger] init[i]) by {
            assert(init[i] == s[i]);
        }
        lemma_digits_grow(init, k);
    }
}

proof fn lemma_digits_nonnegative(s: Seq<u8>)
    requires
        all_digits(s),
    ensures
        0 <= digits_value(s),
    decreases s.len(),
{
    if s.len() > 0 {
        let init = s.drop_last();
        assert(is_digit(s[s.len() - 1]));
        assert forall|i: int| 0 <= i < init.len() implies is_digit(#[trigger] init[i]) by {
            assert(init[i] == s[i]);
        }
        lemma_digits_nonnegative(init);
    }
}

/// The index at which the white space that `text[lo..hi]` begins with ends.
fn skip_spaces(text: &[u8], lo: usize, hi: usize) -> (r: usize)
    requires
        lo <= hi <= text.len(),
    ensures
        lo <= r <= hi,
        text@.subrange(r as int, hi as int) == trim_start(text@.subrange(lo as int, hi as int)),
{
    let mut i: usize = lo;
    while i < hi && (text[i] == 32 || (9 <= text[i] && text[i] <= 13))
        invariant
            lo <= i <= hi <= text.len(),
            trim_start(text@.subrange(i as int, hi as int)) == trim_start(
                text@.subrange(lo as int, hi as int),
            ),
        decreases hi - i,
    {
        assert(text@.subrange(i as int, hi as int).drop_first() =~= text@.subrange(
            i + 1,
            hi as int,
        ));
        i += 1;
    }
    i
}

/// The index at which the white space that `text[lo..hi]` ends with begins.
fn drop_spaces(text: &[u8], lo: usize, hi: usize) -> (r: usize)
    requires
        lo <= hi <= text.len(),
    ensures
        lo <= r <= hi,
        text@.subrange(lo as int, r as int) == trim_end(text@.subrange(lo as int, hi as int)),
{
    let mut i: usize = hi;
    while lo < i && (text[i - 1] == 32 || (9 <= text[i - 1] && text[i - 1] <= 13))
        invariant
            lo <= i <= hi <= text.len(),
            trim_end(text@.subrange(lo as int, i as int)) == trim_end(
                text@.subrange(lo as int, hi as int),
            ),
        decreases i - lo,
    {
        assert(text@.subrange(lo as int, i as int).drop_last() =~= text@.subrange(
            lo as int,
            i - 1,
        ));
        i -= 1;
    }
    i
}

/// The index of the first comma of `text[lo..hi]`, or `hi` where it holds
/// none.
fn find_comma(text: &[u8], lo: usize, hi: usize) -> (r: usize)
    requires
        lo <= hi <= text.len(),
    ensures
        lo <= r <= hi,
        r - lo == field_len(text@.subrange(lo as int, hi as int)),
{
    let mut i: usize = lo;
    let ghost whole = text@.subrange(lo as int, hi as int);
    while i < hi && text[i] != 44
        invariant
            lo <= i <= hi <= text.len(),
            whole == text@.subrange(lo as int, hi as int),
            field_len(whole) == (i - lo) + field_len(text@.subrange(i as int, hi as int)),
        decreases hi - i,
    {
        assert(text@.subrange(i as int, hi as int).drop_first() =~= text@.subrange(
            i + 1,
            hi as int,
        ));
        i += 1;
    }
    i
}

/// Reads `text[lo..hi]` as an integer literal.
#[verifier::loop_isolation(false)]
pub fn parse_literal(text: &[u8], lo: usize, hi: usize) -> (r: Option<Int>)
    requires
        lo <= hi <= text.len(),
    ensures
        r == literal_value(text@.subrange(lo as int, hi as int)),
{
    if lo == hi {
        return None;
    }
    let negative = text[lo] == 45;
    let signed = negative || text[lo] == 43;
    let from: usize = if signed { lo + 1 } else { lo };
    let ghost digits = text@.subrange(from as int, hi as int);
    proof {
        if signed {
            assert(text@.subrange(lo as int, hi as int).drop_first() =~= digits);
        }
    }
    if from == hi {
        return None;
    }
    let mut acc: Int = 0;
    let mut i: usize = from;
    while i < hi
        invariant
            from <= i <= hi <= text.len(),
            digits == text@.subrange(from as int, hi as int),
            all_digits(digits.take(i - from)),
            acc == if negative {
                -digits_value(digits.take(i - from))
            } else {
                digits_value(digits.take(i - from))
            },
        decreases hi - i,
    {
        let byte: u8 = text[i];
        if byte < 48 || byte > 57 {
            assert(!is_digit(digits[i - from]));
            return None;
        }
        let digit: Int = (byte - 48) as Int;
        proof {
            let shorter = digits.take(i - from);
            let longer = digits.take(i - from + 1);
            assert(longer.drop_last() =~= shorter);
            assert(longer.last() == byte);
            assert forall|j: int| 0 <= j < longer.len() implies is_digit(#[trigger] longer[j]) by {
                if j < shorter.len() {
                    assert(longer[j] == shorter[j]);
                }
            }
            lemma_digits_nonnegative(shorter);
            if all_digits(digits) {
                lemma_digits_grow(digits, i - from + 1);
            }
        }
        let scaled: Int = match acc.checked_mul(10) {
            Some(scaled) => scaled,
            None => {
                return None;
            },
        };
        let next = if negative {
            scaled.checked_sub(digit)
        } else {
            scaled.checked_add(digit)
        };
        acc =
        match next {
            Some(next) => next,
            None => {
                return None;
            },
        };
        i += 1;
    }
    assert(digits.take(hi - from) =~= digits);
    Some(acc)
}

/// Reads a program text: trims it, cuts it at the commas, trims each piece
/// and reads it as an integer literal.
pub fn parse_program(text: &[u8]) -> (r: Result<Vec<Int>, ParseError>)
    ensures
        match r {
            Ok(code) => parse_spec(text@) == Ok::<Seq<Int>, nat>(code@),
            Err(error) => parse_spec(text@) == Err::<Seq<Int>, nat>(error.element as nat),
        },
{
    let start: usize = skip_spaces(text, 0, text.len());
    let end: usize = drop_spaces(text, start, text.len());
    let ghost body = text@.subrange(start as int, end as int);
    assert(text@.subrange(0, text@.len() as int) =~= text@);
    assert(body == trim(text@));
    let mut code: Vec<Int> = Vec::new();
    let mut pos: usize = start;
    let ghost mut done: Seq<Seq<u8>> = Seq::empty();
    loop
        invariant
            start <= pos <= end <= text.len(),
            body == text@.subrange(start as int, end as int),
            body == trim(text@),
            fields(body) == done + fields(text@.subrange(pos as int, end as int)),
            code@.len() == done.len(),
            forall|j: int|
                0 <= j < done.len() ==> literal_value(trim(#[trigger] done[j])) == Some(code@[j]),
        decreases end - pos,
    {
        let ghost rest = text@.subrange(pos as int, end as int);
        let comma: usize = find_comma(text, pos, end);
        let from: usize = skip_spaces(text, pos, comma);
        let to: usize = drop_spaces(text, from, comma);
        let ghost field = text@.subrange(pos as int, comma as int);
        proof {
            lemma_field_len_bound(rest);
            assert(rest.take(comma - pos) =~= field);
            if comma == end {
                assert(field =~= rest);
            } else {
                assert(rest.skip(comma - pos + 1) =~= text@.subrange(comma + 1, end as int));
            }
            assert(text@.subrange(from as int, to as int) == trim(field));
        }
        let ghost all = elements(text@);
        let ghost k = done.len();
        match parse_literal(text, from, to) {
            None => {
                proof {
                    assert(fields(body)[k as int] == field);
                    assert forall|j: int| 0 <= j < k implies (#[trigger] all[j]) is Some by {
                        assert(fields(body)[j] == done[j]);
                    }
                    lemma_first_invalid(all, k);
                }
                return Err(ParseError { element: code.len() });
            },
            Some(value) => {
                code.push(value);
                proof {
                    done = done.push(field);
                }
            },
        }
        if comma == end {
            proof {
                assert(fields(body) =~= done);
                assert forall|j: int| 0 <= j < all.len() implies (#[trigger] all[j]) is Some
                    && all[j]->0 == code@[j] by {
                    assert(fields(body)[j] == done[j]);
                }
                lemma_first_invalid(all, all.len());
                assert(all.map_values(|element: Option<Int>| element->0) =~= code@);
            }
            return Ok(code);
        }
        proof {
            assert(fields(body) =~= done + fields(text@.subrange(comma + 1, end as int)));
        }
        pos = comma + 1;
    }
}

} // verus!
