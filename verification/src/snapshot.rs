//! Reading serialized translations: the two-level snapshot of a whole
//! resource and the one-level table of a single locale, both written in RON.

use std::collections::BTreeMap;
use vstd::prelude::*;

use crate::resource::{entries_view, pairs_view};

verus! {

#[verifier::external_type_specification]
#[verifier::external_body]
pub struct ExSpannedError(ron::error::SpannedError);

/// Why a snapshot or locale table could not be read.
#[derive(Debug)]
pub struct ParseError {
    /// What the parser expected or found.
    pub message: String,
    /// The line at which the parser gave up, counted from 1.
    pub line: usize,
    /// The column at which the parser gave up, counted from 1.
    pub column: usize,
}

/// A [`ParseError`] as plain values.
pub struct ParseErrorView {
    pub message: Seq<char>,
    pub line: nat,
    pub column: nat,
}

impl View for ParseError {
    type V = ParseErrorView;

    open spec fn view(&self) -> ParseErrorView {
        ParseErrorView {
            message: self.message@,
            line: self.line as nat,
            column: self.column as nat,
        }
    }
}

/// What `ron::from_str` reads from `text` as a map from template to the map
/// from locale to text, its entries in ascending order of template and of
/// locale; or the diagnostic with which it refuses `text`.
pub uninterp spec fn ron_snapshot(text: Seq<char>) -> Result<
    Seq<(Seq<char>, Seq<(Seq<char>, Seq<char>)>)>,
    ParseErrorView,
>;

/// What `ron::from_str` reads from `text` as a map from template to text, its
/// entries in ascending order of template; or the diagnostic with which it
/// refuses `text`.
pub uninterp spec fn ron_locale_table(text: Seq<char>) -> Result<
    Seq<(Seq<char>, Seq<char>)>,
    ParseErrorView,
>;

/// What a RON error holds: the message of its code and the position at which
/// its span ends.
pub uninterp spec fn ron_diagnostic(cause: ron::error::SpannedError) -> ParseErrorView;

/// Calls `ron::from_str` for a `BTreeMap<String, BTreeMap<String, String>>`
/// and lists the entries as the maps hand them out. Trusted: the list, or the
/// error, is the one that [`ron_snapshot`] names for this text.
#[verifier::external_body]
fn read_snapshot(text: &str) -> (read: Result<
    Vec<(String, Vec<(String, String)>)>,
    ron::error::SpannedError,
>)
    ensures
        match read {
            Ok(entries) => ron_snapshot(text@) == Ok::<
                Seq<(Seq<char>, Seq<(Seq<char>, Seq<char>)>)>,
                ParseErrorView,
            >(entries_view(entries@)),
            Err(cause) => ron_snapshot(text@) == Err::<
                Seq<(Seq<char>, Seq<(Seq<char>, Seq<char>)>)>,
                ParseErrorView,
            >(ron_diagnostic(cause)),
        },
{
    let parsed: BTreeMap<String, BTreeMap<String, String>> = ron::from_str(text)?;
    Ok(parsed.into_iter().map(|(key, table)| (key, table.into_iter().collect())).collect())
}

/// Calls `ron::from_str` for a `BTreeMap<String, String>` and lists the
/// entries as the map hands them out. Trusted: the list, or the error, is the
/// one that [`ron_locale_table`] names for this text.
#[verifier::external_body]
fn read_locale_table(text: &str) -> (read: Result<Vec<(String, String)>, ron::error::SpannedError>)
    ensures
        match read {
            Ok(pairs) => ron_locale_table(text@) == Ok::<
                Seq<(Seq<char>, Seq<char>)>,
                ParseErrorView,
            >(pairs_view(pairs@)),
            Err(cause) => ron_locale_table(text@) == Err::<
                Seq<(Seq<char>, Seq<char>)>,
                ParseErrorView,
            >(ron_diagnostic(cause)),
        },
{
    let parsed: BTreeMap<String, String> = ron::from_str(text)?;
    Ok(parsed.into_iter().collect())
}

/// Moves the fields of a `ron::error::SpannedError` into a [`ParseError`]:
/// the `Display` text of its `code`, and the line and column of `span.end`.
/// Trusted: these are what [`ron_diagnostic`] names for this error.
#[verifier::external_body]
fn diagnostic(cause: ron::error::SpannedError) -> (error: ParseError)
    ensures
        error@ == ron_diagnostic(cause),
{
    ParseError {
        message: cause.code.to_string(),
        line: cause.span.end.line,
        column: cause.span.end.col,
    }
}

/// Reads a two-level snapshot: template, then locale, then text.
pub fn parse_snapshot(text: &str) -> (parsed: Result<
    Vec<(String, Vec<(String, String)>)>,
    ParseError,
>)
    ensures
        match parsed {
            Ok(entries) => ron_snapshot(text@) == Ok::<
                Seq<(Seq<char>, Seq<(Seq<char>, Seq<char>)>)>,
                ParseErrorView,
            >(entries_view(entries@)),
            Err(error) => ron_snapshot(text@) == Err::<
                Seq<(Seq<char>, Seq<(Seq<char>, Seq<char>)>)>,
                ParseErrorView,
            >(error@),
        },
{
    match read_snapshot(text) {
        Ok(entries) => Ok(entries),
        Err(cause) => Err(diagnostic(cause)),
    }
}

/// Reads the one-level table of a single locale: template, then text.
pub fn parse_locale_table(text: &str) -> (parsed: Result<Vec<(String, String)>, ParseError>)
    ensures
        match parsed {
            Ok(pairs) => ron_locale_table(text@) == Ok::<
                Seq<(Seq<char>, Seq<char>)>,
                ParseErrorView,
            >(pairs_view(pairs@)),
            Err(error) => ron_locale_table(text@) == Err::<
                Seq<(Seq<char>, Seq<char>)>,
                ParseErrorView,
            >(error@),
        },
{
    match read_locale_table(text) {
        Ok(pairs) => Ok(pairs),
        Err(cause) => Err(diagnostic(cause)),
    }
}

} // verus!
