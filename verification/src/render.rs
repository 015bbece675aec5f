//! Rendering a template with positional or named values, through the
//! `formatx` engine.

use vstd::prelude::*;
use vstd::utf8::encode_utf8;

use crate::limits::{
    brace_free, has_short_numbers, lemma_brace_free_is_renderable, lemma_without_braces,
    numbers_short, renderable, survey, values_short, without_braces,
};
use crate::resource::pairs_view;

verus! {

#[verifier::external_type_specification]
#[verifier::external_body]
pub struct ExFormatxError(formatx::Error);

/// The values that a template is rendered with.
#[derive(Debug)]
pub enum Arguments {
    /// No values at all.
    Empty,
    /// Values for `{}`, `{0}`, `{1}` and so on, in this order.
    Positional(Vec<String>),
    /// Values for `{name}` placeholders, each with its name.
    Named(Vec<(String, String)>),
}

/// [`Arguments`] as plain values.
pub enum ArgumentsView {
    Empty,
    Positional(Seq<Seq<char>>),
    Named(Seq<(Seq<char>, Seq<char>)>),
}

/// The characters of each string.
pub open spec fn strings_view(strings: Seq<String>) -> Seq<Seq<char>> {
    strings.map_values(|string: String| string@)
}

/// The second part of each pair.
pub open spec fn seconds(pairs: Seq<(Seq<char>, Seq<char>)>) -> Seq<Seq<char>> {
    pairs.map_values(|pair: (Seq<char>, Seq<char>)| pair.1)
}

impl View for Arguments {
    type V = ArgumentsView;

    open spec fn view(&self) -> ArgumentsView {
        match self {
            Arguments::Empty => ArgumentsView::Empty,
            Arguments::Positional(values) => ArgumentsView::Positional(strings_view(values@)),
            Arguments::Named(pairs) => ArgumentsView::Named(pairs_view(pairs@)),
        }
    }
}

impl ArgumentsView {
    /// The values given by position.
    pub open spec fn positional(self) -> Seq<Seq<char>> {
        match self {
            ArgumentsView::Positional(values) => values,
            _ => Seq::empty(),
        }
    }

    /// The values given by name, each with its name.
    pub open spec fn named(self) -> Seq<(Seq<char>, Seq<char>)> {
        match self {
            ArgumentsView::Named(pairs) => pairs,
            _ => Seq::empty(),
        }
    }

    /// All the values, those given by position first.
    pub open spec fn values(self) -> Seq<Seq<char>> {
        self.positional() + seconds(self.named())
    }
}

/// Why a template could not be rendered.
#[derive(Debug)]
pub enum FormatError {
    /// The template is not well formed; `offset` is a byte offset into it.
    Malformed { offset: usize, message: String },
    /// The placeholder at byte `offset` refers to a value that was not given.
    MissingArgument { name: String, offset: usize },
    /// A placeholder asks for a rendering that a value cannot take;
    /// `placeholder` is its byte offset where the engine reports one.
    Unrenderable { placeholder: Option<usize> },
    /// A placeholder, or a value that a placeholder takes its width or
    /// precision from, holds a number of more than four digits.
    NumberTooLong,
}

/// A [`FormatError`] as plain values.
pub enum FormatErrorView {
    Malformed { offset: nat, message: Seq<char> },
    MissingArgument { name: Seq<char>, offset: nat },
    Unrenderable { placeholder: Option<nat> },
    NumberTooLong,
}

impl View for FormatError {
    type V = FormatErrorView;

    open spec fn view(&self) -> FormatErrorView {
        match self {
            FormatError::Malformed { offset, message } => FormatErrorView::Malformed {
                offset: *offset as nat,
                message: message@,
            },
            FormatError::MissingArgument { name, offset } => FormatErrorView::MissingArgument {
                name: name@,
                offset: *offset as nat,
            },
            FormatError::Unrenderable { placeholder } => FormatErrorView::Unrenderable {
                placeholder: match placeholder {
                    Some(at) => Some(*at as nat),
                    None => None,
                },
            },
            FormatError::NumberTooLong => FormatErrorView::NumberTooLong,
        }
    }
}

/// What the strict mode of `formatx` makes of `template` once the positional
/// values and then the named values have been handed to it, all as strings:
/// the rendered text, or the error with which it refuses.
pub uninterp spec fn formatx_output(
    template: Seq<char>,
    positional: Seq<Seq<char>>,
    named: Seq<(Seq<char>, Seq<char>)>,
) -> Result<Seq<char>, FormatErrorView>;

/// What a `formatx` error holds, variant by variant.
pub uninterp spec fn formatx_fault(cause: formatx::Error) -> FormatErrorView;

/// Does what `formatx::formatx!` expands to: `Template::new`, `render`, one
/// `arg` for each positional value, one `named` for each named value, then
/// `finish`. Trusted: the text, or the error, is the one that
/// [`formatx_output`] names for these arguments; and a template without
/// braces, which the engine reads as one literal, comes back as it is. The
/// engine passes widths and precisions on to the standard formatter, which
/// panics on one above `u16::MAX`: the `requires` keeps every such number to
/// four digits.
#[verifier::external_body]
fn formatx_render(template: &str, positional: &Vec<String>, named: &Vec<(String, String)>) -> (done:
    Result<String, formatx::Error>)
    requires
        renderable(template@, strings_view(positional@) + seconds(pairs_view(named@))),
    ensures
        match done {
            Ok(text) => {
                &&& formatx_output(template@, strings_view(positional@), pairs_view(named@))
                    == Ok::<Seq<char>, FormatErrorView>(text@)
                &&& brace_free(encode_utf8(template@)) ==> text@ == template@
            },
            Err(cause) => {
                &&& formatx_output(template@, strings_view(positional@), pairs_view(named@))
                    == Err::<Seq<char>, FormatErrorView>(formatx_fault(cause))
                &&& !brace_free(encode_utf8(template@))
            },
        },
{
    let parsed = formatx::Template::new(template)?;
    let mut renderer = parsed.render();
    for value in positional.iter() {
        renderer.arg(value.as_str());
    }
    for (name, value) in named.iter() {
        renderer.named(name.as_str(), value.as_str());
    }
    renderer.finish()
}

/// Moves the fields of a `formatx::Error` into a [`FormatError`], one
/// variant for each of its own; `UnsupportedTrait` and `Format` both become
/// `Unrenderable`, the first with its offset. Trusted: the result is what
/// [`formatx_fault`] names for this error.
#[verifier::external_body]
fn fault(cause: formatx::Error) -> (error: FormatError)
    ensures
        error@ == formatx_fault(cause),
{
    match cause {
        formatx::Error::Parse { offset, message } => FormatError::Malformed { offset, message },
        formatx::Error::MissingArgument { name, offset } => FormatError::MissingArgument {
            name,
            offset,
        },
        formatx::Error::UnsupportedTrait { offset, .. } => FormatError::Unrenderable {
            placeholder: Some(offset),
        },
        formatx::Error::Format(_) => FormatError::Unrenderable { placeholder: None },
    }
}

/// What [`render`] returns: the engine's result where the template can be
/// rendered with these values, and `NumberTooLong` where it cannot.
pub open spec fn rendering(template: Seq<char>, arguments: ArgumentsView) -> Result<
    Seq<char>,
    FormatErrorView,
> {
    if renderable(template, arguments.values()) {
        formatx_output(template, arguments.positional(), arguments.named())
    } else {
        Err(FormatErrorView::NumberTooLong)
    }
}

/// Whether every one of `values` keeps its numbers short.
fn all_short(values: &Vec<String>) -> (short: bool)
    ensures
        short == values_short(strings_view(values@)),
{
    let mut at: usize = 0;
    while at < values.len()
        invariant
            at <= values.len(),
            values_short(strings_view(values@).take(at as int)),
        decreases values.len() - at,
    {
        if !has_short_numbers(values[at].as_str()) {
            assert(strings_view(values@)[at as int] == values[at as int]@);
            return false;
        }
        proof {
            let seen = strings_view(values@).take(at + 1);
            assert forall|i: int| 0 <= i < seen.len() implies numbers_short(
                encode_utf8(#[trigger] seen[i]),
            ) by {
                if i < at {
                    assert(seen[i] == strings_view(values@).take(at as int)[i]);
                }
            }
        }
        at += 1;
    }
    proof {
        assert(strings_view(values@).take(at as int) =~= strings_view(values@));
    }
    true
}

/// Whether the value of every pair keeps its numbers short.
fn all_short_named(pairs: &Vec<(String, String)>) -> (short: bool)
    ensures
        short == values_short(seconds(pairs_view(pairs@))),
{
    let ghost values = seconds(pairs_view(pairs@));
    let mut at: usize = 0;
    while at < pairs.len()
        invariant
            at <= pairs.len(),
            values == seconds(pairs_view(pairs@)),
            values_short(values.take(at as int)),
        decreases pairs.len() - at,
    {
        if !has_short_numbers(pairs[at].1.as_str()) {
            assert(values[at as int] == pairs[at as int].1@);
            return false;
        }
        proof {
            let seen = values.take(at + 1);
            assert forall|i: int| 0 <= i < seen.len() implies numbers_short(
                encode_utf8(#[trigger] seen[i]),
            ) by {
                if i < at {
                    assert(seen[i] == values.take(at as int)[i]);
                }
            }
        }
        at += 1;
    }
    proof {
        assert(values.take(at as int) =~= values);
    }
    true
}

/// Values listed one after the other are short where both lists are.
pub proof fn lemma_values_short_concat(first: Seq<Seq<char>>, second: Seq<Seq<char>>)
    ensures
        values_short(first + second) == (values_short(first) && values_short(second)),
{
    let both = first + second;
    if values_short(both) {
        assert forall|i: int| 0 <= i < first.len() implies numbers_short(
            encode_utf8(#[trigger] first[i]),
        ) by {
            assert(both[i] == first[i]);
        }
        assert forall|i: int| 0 <= i < second.len() implies numbers_short(
            encode_utf8(#[trigger] second[i]),
        ) by {
            assert(both[first.len() + i] == second[i]);
        }
    }
    if values_short(first) && values_short(second) {
        assert forall|i: int| 0 <= i < both.len() implies numbers_short(
            encode_utf8(#[trigger] both[i]),
        ) by {
            if i < first.len() {
                assert(both[i] == first[i]);
            } else {
                assert(both[i] == second[i - first.len()]);
            }
        }
    }
}

/// Whether `template` can be rendered with these values.
pub fn can_render(template: &str, arguments: &Arguments) -> (can: bool)
    ensures
        can == renderable(template@, arguments@.values()),
{
    match survey(template) {
        None => {
            return false;
        },
        Some(borrows) => {
            if !borrows {
                return true;
            }
        },
    }
    proof {
        lemma_values_short_concat(arguments@.positional(), seconds(arguments@.named()));
        assert(values_short(Seq::<Seq<char>>::empty()));
        assert(seconds(Seq::<(Seq<char>, Seq<char>)>::empty()) =~= Seq::<Seq<char>>::empty());
    }
    match arguments {
        Arguments::Empty => true,
        Arguments::Positional(values) => all_short(values),
        Arguments::Named(pairs) => all_short_named(pairs),
    }
}

/// Renders `template` with `arguments`.
pub fn render(template: &str, arguments: &Arguments) -> (rendered: Result<String, FormatError>)
    ensures
        match rendered {
            Ok(text) => rendering(template@, arguments@) == Ok::<Seq<char>, FormatErrorView>(
                text@,
            ),
            Err(error) => rendering(template@, arguments@) == Err::<Seq<char>, FormatErrorView>(
                error@,
            ),
        },
        without_braces(template@) ==> (rendered matches Ok(text) && text@ == template@),
{
    proof {
        if without_braces(template@) {
            lemma_without_braces(template@);
            lemma_brace_free_is_renderable(encode_utf8(template@));
        }
    }
    if !can_render(template, arguments) {
        return Err(FormatError::NumberTooLong);
    }
    let no_values: Vec<String> = Vec::new();
    let no_pairs: Vec<(String, String)> = Vec::new();
    proof {
        assert(strings_view(no_values@) =~= Seq::<Seq<char>>::empty());
        assert(pairs_view(no_pairs@) =~= Seq::<(Seq<char>, Seq<char>)>::empty());
    }
    let done = match arguments {
        Arguments::Empty => formatx_render(template, &no_values, &no_pairs),
        Arguments::Positional(values) => formatx_render(template, values, &no_pairs),
        Arguments::Named(pairs) => formatx_render(template, &no_values, pairs),
    };
    match done {
        Ok(text) => Ok(text),
        Err(cause) => Err(fault(cause)),
    }
}

} // verus!
