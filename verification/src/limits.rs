//! What a template may ask of the formatter. A width or precision reaches
//! the standard formatter as a number, which it takes only up to `u16::MAX`;
//! the library therefore renders only templates whose format specs keep
//! their numbers to four digits.

use vstd::prelude::*;
use vstd::utf8::{
    encode_scalar, encode_utf8, has_width_1_encoding, last_continuation_byte,
    leading_byte_width_1, leading_byte_width_2, leading_byte_width_3, leading_byte_width_4,
    second_last_continuation_byte, third_last_continuation_byte,
};

verus! {

/// The most digits that a number inside a format spec may have.
pub const MAX_DIGITS: usize = 4;

/// Where a byte of a template stands.
#[derive(Clone, Copy, PartialEq, Eq, Structural, Debug)]
pub enum Part {
    /// Outside every placeholder.
    Literal,
    /// Right after a `{` in literal text: a second `{` makes the two a
    /// literal brace, anything else begins a placeholder.
    Opened,
    /// In a placeholder, before its `:` if it has one.
    Argument,
    /// In a placeholder, after its first `:` and up to its `}`.
    Spec,
}

/// An ASCII digit.
pub open spec fn is_digit(byte: u8) -> bool {
    0x30 <= byte <= 0x39
}

/// A `$` or a `*`: the marks by which a format spec takes a width or a
/// precision from an argument.
pub open spec fn is_mark(byte: u8) -> bool {
    byte == 0x24 || byte == 0x2a
}

/// The part in which the next byte stands, after `byte` in `part`. A
/// placeholder runs from a `{` that is not doubled to the next `}`.
pub open spec fn after(part: Part, byte: u8) -> Part {
    match part {
        Part::Literal => if byte == 0x7b {
            Part::Opened
        } else {
            Part::Literal
        },
        Part::Opened => if byte == 0x7b || byte == 0x7d {
            Part::Literal
        } else if byte == 0x3a {
            Part::Spec
        } else {
            Part::Argument
        },
        Part::Argument => if byte == 0x7d {
            Part::Literal
        } else if byte == 0x3a {
            Part::Spec
        } else {
            Part::Argument
        },
        Part::Spec => if byte == 0x7d {
            Part::Literal
        } else {
            Part::Spec
        },
    }
}

/// The part in which the byte at `at` stands.
#[verifier::opaque]
pub open spec fn part_at(bytes: Seq<u8>, at: int) -> Part
    decreases at,
{
    if at <= 0 {
        Part::Literal
    } else {
        after(part_at(bytes, at - 1), bytes[at - 1])
    }
}

/// Every byte from `from` up to `to` is a digit.
pub open spec fn digits(bytes: Seq<u8>, from: int, to: int) -> bool {
    forall|at: int| from <= at < to ==> is_digit(#[trigger] bytes[at])
}

/// Every byte from `from` up to `to` is a digit of a format spec.
pub open spec fn spec_digits(bytes: Seq<u8>, from: int, to: int) -> bool {
    forall|at: int|
        from <= at < to ==> is_digit(#[trigger] bytes[at]) && part_at(bytes, at) == Part::Spec
}

/// No more than [`MAX_DIGITS`] digits stand in a row anywhere in `bytes`.
pub open spec fn numbers_short(bytes: Seq<u8>) -> bool {
    forall|from: int|
        0 <= from && from + MAX_DIGITS < bytes.len() ==> !#[trigger] digits(
            bytes,
            from,
            from + MAX_DIGITS + 1,
        )
}

/// No more than [`MAX_DIGITS`] digits stand in a row inside a format spec of
/// `bytes`.
pub open spec fn specs_short(bytes: Seq<u8>) -> bool {
    forall|from: int|
        0 <= from && from + MAX_DIGITS < bytes.len() ==> !#[trigger] spec_digits(
            bytes,
            from,
            from + MAX_DIGITS + 1,
        )
}

/// A format spec among the first `count` bytes holds a mark.
pub open spec fn borrows_before(bytes: Seq<u8>, count: int) -> bool {
    exists|at: int|
        0 <= at < count && #[trigger] part_at(bytes, at) == Part::Spec && is_mark(bytes[at])
}

/// Some format spec of `bytes` takes its width or precision from an
/// argument.
pub open spec fn specs_borrow(bytes: Seq<u8>) -> bool {
    borrows_before(bytes, bytes.len() as int)
}

/// No byte is a brace: text without placeholders and without doubled braces.
pub open spec fn brace_free(bytes: Seq<u8>) -> bool {
    forall|i: int| 0 <= i < bytes.len() ==> bytes[i] != 0x7b && bytes[i] != 0x7d
}

/// No character is a brace.
pub open spec fn without_braces(text: Seq<char>) -> bool {
    forall|i: int| 0 <= i < text.len() ==> text[i] != '{' && text[i] != '}'
}

/// Every value keeps its numbers to [`MAX_DIGITS`] digits.
pub open spec fn values_short(values: Seq<Seq<char>>) -> bool {
    forall|i: int| 0 <= i < values.len() ==> numbers_short(encode_utf8(#[trigger] values[i]))
}

/// The template can be rendered with these values: its format specs keep
/// their numbers short, and where one of them takes a width or precision
/// from an argument, so do the values.
pub open spec fn renderable(template: Seq<char>, values: Seq<Seq<char>>) -> bool {
    &&& specs_short(encode_utf8(template))
    &&& specs_borrow(encode_utf8(template)) ==> values_short(values)
}

/// The first byte is literal, and each byte decides the part of the next.
pub proof fn lemma_part_at(bytes: Seq<u8>, at: int)
    requires
        0 <= at,
    ensures
        part_at(bytes, 0) == Part::Literal,
        part_at(bytes, at + 1) == after(part_at(bytes, at), bytes[at]),
{
    reveal(part_at);
}

/// In text without braces every byte is literal.
proof fn lemma_brace_free_is_literal(bytes: Seq<u8>, at: int)
    requires
        brace_free(bytes),
        0 <= at <= bytes.len(),
    ensures
        part_at(bytes, at) == Part::Literal,
    decreases at,
{
    if at > 0 {
        lemma_brace_free_is_literal(bytes, at - 1);
        lemma_part_at(bytes, at - 1);
    } else {
        lemma_part_at(bytes, 0);
    }
}

/// Text without braces has no format spec, so none of its numbers is too
/// long and none is taken from an argument.
pub proof fn lemma_brace_free_is_renderable(bytes: Seq<u8>)
    requires
        brace_free(bytes),
    ensures
        specs_short(bytes),
        !specs_borrow(bytes),
{
    assert forall|from: int| 0 <= from && from + MAX_DIGITS < bytes.len() implies !#[trigger] spec_digits(
        bytes,
        from,
        from + MAX_DIGITS + 1,
    ) by {
        lemma_brace_free_is_literal(bytes, from);
        if spec_digits(bytes, from, from + MAX_DIGITS + 1) {
            assert(from <= from < from + MAX_DIGITS + 1);
            assert(is_digit(bytes[from]));
            assert(part_at(bytes, from) == Part::Spec);
        }
    }
    assert forall|at: int| 0 <= at < bytes.len() implies #[trigger] part_at(bytes, at)
        != Part::Spec by {
        lemma_brace_free_is_literal(bytes, at);
    }
}

/// No byte of the encoding of a character other than a brace is a brace.
proof fn lemma_scalar_without_braces(scalar: u32)
    requires
        scalar != 0x7b,
        scalar != 0x7d,
    ensures
        brace_free(encode_scalar(scalar)),
{
    assert(has_width_1_encoding(scalar) ==> leading_byte_width_1(scalar) != 0x7b
        && leading_byte_width_1(scalar) != 0x7d) by (bit_vector)
        requires
            scalar != 0x7b,
            scalar != 0x7d,
    ;
    assert(leading_byte_width_2(scalar) >= 0x80 && leading_byte_width_3(scalar) >= 0x80
        && leading_byte_width_4(scalar) >= 0x80 && last_continuation_byte(scalar) >= 0x80
        && second_last_continuation_byte(scalar) >= 0x80 && third_last_continuation_byte(scalar)
        >= 0x80) by (bit_vector);
}

/// Text without brace characters is encoded without brace bytes.
pub proof fn lemma_without_braces(text: Seq<char>)
    requires
        without_braces(text),
    ensures
        brace_free(encode_utf8(text)),
    decreases text.len(),
{
    if text.len() > 0 {
        let scalar = text[0] as u32;
        let first = encode_scalar(scalar);
        let rest = encode_utf8(text.drop_first());
        assert(scalar != 0x7b && scalar != 0x7d) by {
            vstd::utf8::char_u32_cast(text[0], scalar);
            assert(0x7bu32 as char == '{');
            assert(0x7du32 as char == '}');
        }
        lemma_scalar_without_braces(scalar);
        assert forall|i: int| 0 <= i < text.drop_first().len() implies text.drop_first()[i] != '{'
            && text.drop_first()[i] != '}' by {
            assert(text.drop_first()[i] == text[i + 1]);
        }
        lemma_without_braces(text.drop_first());
        assert forall|i: int| 0 <= i < (first + rest).len() implies (first + rest)[i] != 0x7b && (
        first + rest)[i] != 0x7d by {
            if i < first.len() {
                assert((first + rest)[i] == first[i]);
            } else {
                assert((first + rest)[i] == rest[i - first.len()]);
            }
        }
    }
}

/// A window that holds a byte which is no digit is no window of digits.
proof fn lemma_not_digits(bytes: Seq<u8>, from: int, stop: int)
    requires
        from <= stop <= from + MAX_DIGITS,
        !is_digit(bytes[stop]),
    ensures
        !digits(bytes, from, from + MAX_DIGITS + 1),
{
}

/// A window that holds a byte which is no digit of a format spec is no
/// window of such digits.
proof fn lemma_not_spec_digits(bytes: Seq<u8>, from: int, stop: int)
    requires
        from <= stop <= from + MAX_DIGITS,
        !(is_digit(bytes[stop]) && part_at(bytes, stop) == Part::Spec),
    ensures
        !spec_digits(bytes, from, from + MAX_DIGITS + 1),
{
    if spec_digits(bytes, from, from + MAX_DIGITS + 1) {
        assert(is_digit(bytes[stop]) && part_at(bytes, stop) == Part::Spec);
    }
}

/// A run of digits of a format spec grows by the digit of a format spec
/// that follows it.
proof fn lemma_spec_digits_grow(bytes: Seq<u8>, from: int, to: int)
    requires
        spec_digits(bytes, from, to),
        is_digit(bytes[to]),
        part_at(bytes, to) == Part::Spec,
    ensures
        spec_digits(bytes, from, to + 1),
{
}

/// Whether a mark stands in a format spec among the first bytes, one byte
/// further on.
proof fn lemma_borrows_step(bytes: Seq<u8>, count: int)
    requires
        0 <= count,
    ensures
        borrows_before(bytes, count + 1) == (borrows_before(bytes, count) || (part_at(bytes, count)
            == Part::Spec && is_mark(bytes[count]))),
{
    if borrows_before(bytes, count + 1) {
        let at = choose|at: int|
            0 <= at < count + 1 && #[trigger] part_at(bytes, at) == Part::Spec && is_mark(
                bytes[at],
            );
        if at < count {
            assert(borrows_before(bytes, count));
        }
    }
    if borrows_before(bytes, count) {
        let at = choose|at: int|
            0 <= at < count && #[trigger] part_at(bytes, at) == Part::Spec && is_mark(bytes[at]);
        assert(0 <= at < count + 1 && part_at(bytes, at) == Part::Spec && is_mark(bytes[at]));
    }
    if part_at(bytes, count) == Part::Spec && is_mark(bytes[count]) {
        assert(borrows_before(bytes, count + 1));
    }
}

/// The part in which the next byte stands.
fn advance(part: Part, byte: u8) -> (next: Part)
    ensures
        next == after(part, byte),
{
    match part {
        Part::Literal => if byte == 0x7b {
            Part::Opened
        } else {
            Part::Literal
        },
        Part::Opened => if byte == 0x7b || byte == 0x7d {
            Part::Literal
        } else if byte == 0x3a {
            Part::Spec
        } else {
            Part::Argument
        },
        Part::Argument => if byte == 0x7d {
            Part::Literal
        } else if byte == 0x3a {
            Part::Spec
        } else {
            Part::Argument
        },
        Part::Spec => if byte == 0x7d {
            Part::Literal
        } else {
            Part::Spec
        },
    }
}

/// Whether `text` keeps its numbers short.
pub fn has_short_numbers(text: &str) -> (short: bool)
    ensures
        short == numbers_short(encode_utf8(text@)),
{
    let bytes = text.as_bytes();
    let mut run: usize = 0;
    let mut at: usize = 0;
    while at < bytes.len()
        invariant
            at <= bytes.len(),
            run <= MAX_DIGITS,
            run <= at,
            bytes@ == encode_utf8(text@),
            digits(bytes@, at - run, at as int),
            run < at ==> !is_digit(bytes@[at - run - 1]),
            forall|from: int|
                0 <= from && from + MAX_DIGITS < at ==> !#[trigger] digits(
                    bytes@,
                    from,
                    from + MAX_DIGITS + 1,
                ),
        decreases bytes.len() - at,
    {
        let byte = bytes[at];
        let ghost newest = at - MAX_DIGITS;
        if 0x30 <= byte && byte <= 0x39 {
            if run >= MAX_DIGITS {
                assert(digits(bytes@, newest, newest + MAX_DIGITS + 1));
                return false;
            }
            proof {
                if newest >= 0 {
                    lemma_not_digits(bytes@, newest, at - run - 1);
                }
            }
            run += 1;
        } else {
            proof {
                lemma_not_digits(bytes@, newest, at as int);
            }
            run = 0;
        }
        at += 1;
    }
    true
}

/// Surveys the format specs of `template`: `None` where one of them holds
/// a number that is too long, else whether one of them takes a width or
/// precision from an argument.
pub fn survey(template: &str) -> (found: Option<bool>)
    ensures
        match found {
            Some(borrows) => {
                &&& specs_short(encode_utf8(template@))
                &&& borrows == specs_borrow(encode_utf8(template@))
            },
            None => !specs_short(encode_utf8(template@)),
        },
{
    let bytes = template.as_bytes();
    let mut borrows = false;
    let mut part = Part::Literal;
    let mut run: usize = 0;
    let mut at: usize = 0;
    proof {
        lemma_part_at(bytes@, 0);
    }
    while at < bytes.len()
        invariant
            at <= bytes.len(),
            run <= MAX_DIGITS,
            run <= at,
            bytes@ == encode_utf8(template@),
            part == part_at(bytes@, at as int),
            borrows == borrows_before(bytes@, at as int),
            spec_digits(bytes@, at - run, at as int),
            run < at ==> !(is_digit(bytes@[at - run - 1]) && part_at(bytes@, at - run - 1)
                == Part::Spec),
            forall|from: int|
                0 <= from && from + MAX_DIGITS < at ==> !#[trigger] spec_digits(
                    bytes@,
                    from,
                    from + MAX_DIGITS + 1,
                ),
        decreases bytes.len() - at,
    {
        let byte = bytes[at];
        let in_spec = part == Part::Spec;
        let ghost newest = at - MAX_DIGITS;
        proof {
            lemma_borrows_step(bytes@, at as int);
            lemma_part_at(bytes@, at as int);
        }
        if in_spec && 0x30 <= byte && byte <= 0x39 {
            proof {
                lemma_spec_digits_grow(bytes@, at - run, at as int);
            }
            if run >= MAX_DIGITS {
                assert(spec_digits(bytes@, newest, newest + MAX_DIGITS + 1));
                return None;
            }
            proof {
                if newest >= 0 {
                    lemma_not_spec_digits(bytes@, newest, at - run - 1);
                }
            }
            run += 1;
        } else {
            proof {
                lemma_not_spec_digits(bytes@, newest, at as int);
            }
            run = 0;
        }
        if in_spec && (byte == 0x24 || byte == 0x2a) {
            borrows = true;
        }
        part = advance(part, byte);
        at += 1;
    }
    Some(borrows)
}

} // verus!
