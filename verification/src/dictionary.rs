//! The dictionary: a resource of translations and the locale in use.

use vstd::prelude::*;

use crate::limits::without_braces;
use crate::render::{render, rendering, Arguments, ArgumentsView, FormatError, FormatErrorView};
use crate::resource::{merged, snapshot_map, table_map, translation, Resource};
use crate::snapshot::{
    parse_locale_table, parse_snapshot, ron_locale_table, ron_snapshot, ParseError,
};

verus! {

/// The current locale and the translations of each template for each locale.
pub struct Dictionary {
    /// The locale that templates are translated to; `None` leaves them as
    /// they are.
    pub locale: Option<String>,
    /// The translations: template, then locale, then text.
    pub resource: Resource,
}

/// A [`Dictionary`] as plain values.
pub struct DictionaryView {
    pub locale: Option<Seq<char>>,
    pub resource: Map<Seq<char>, Map<Seq<char>, Seq<char>>>,
}

impl View for Dictionary {
    type V = DictionaryView;

    open spec fn view(&self) -> DictionaryView {
        DictionaryView {
            locale: match self.locale {
                Some(locale) => Some(locale@),
                None => None,
            },
            resource: self.resource@,
        }
    }
}

impl DictionaryView {
    /// The translation of `key` for the current locale: none without a
    /// locale, for an unknown template, or for a template that the locale
    /// has no text for.
    pub open spec fn lookup(self, key: Seq<char>) -> Option<Seq<char>> {
        match self.locale {
            Some(locale) => translation(self.resource, key, locale),
            None => None,
        }
    }

    /// The template that stands for `template`: its translation where there
    /// is one, else `template` itself.
    pub open spec fn resolve(self, template: Seq<char>) -> Seq<char> {
        match self.lookup(template) {
            Some(text) => text,
            None => template,
        }
    }

    /// What translating `template` with `arguments` gives: the rendering of
    /// the template that stands for it.
    pub open spec fn translate(self, template: Seq<char>, arguments: ArgumentsView) -> Result<
        Seq<char>,
        FormatErrorView,
    > {
        rendering(self.resolve(template), arguments)
    }

    /// The dictionary after a locale table has been merged into it.
    pub open spec fn merge(self, locale: Seq<char>, table: Map<Seq<char>, Seq<char>>) -> Self {
        DictionaryView { locale: self.locale, resource: merged(self.resource, locale, table) }
    }

    /// The dictionary with another current locale.
    pub open spec fn with_locale(self, locale: Option<Seq<char>>) -> Self {
        DictionaryView { locale, resource: self.resource }
    }
}

impl Dictionary {
    /// The resource is well formed.
    pub open spec fn wf(&self) -> bool {
        self.resource.wf()
    }

    /// An empty dictionary: no locale, no translations.
    pub fn new() -> (dictionary: Self)
        ensures
            dictionary.wf(),
            dictionary@.locale is None,
            dictionary@.resource == Map::<Seq<char>, Map<Seq<char>, Seq<char>>>::empty(),
    {
        Dictionary { locale: None, resource: Resource::new() }
    }

    /// The dictionary that holds what the snapshot `ron` says, with no
    /// locale; the diagnostic where `ron` is malformed.
    pub fn from_ron(ron: &str) -> (read: Result<Dictionary, ParseError>)
        ensures
            match read {
                Ok(dictionary) => {
                    &&& dictionary.wf()
                    &&& dictionary@.locale is None
                    &&& ron_snapshot(ron@) matches Ok(entries)
                    &&& dictionary@.resource == snapshot_map(entries)
                },
                Err(error) => ron_snapshot(ron@) matches Err(diagnostic) && diagnostic == error@,
            },
    {
        match parse_snapshot(ron) {
            Ok(entries) => Ok(Dictionary { locale: None, resource: Resource::from_entries(&entries) }),
            Err(error) => Err(error),
        }
    }

    /// Merges the locale table `ron` into the dictionary under `locale`:
    /// each of its templates gets, or has replaced, its text for `locale`,
    /// and nothing else changes. Where `ron` is malformed the dictionary
    /// stays as it was.
    pub fn with_ron(&mut self, locale: &str, ron: &str) -> (done: Result<&mut Self, ParseError>)
        requires
            old(self).wf(),
        ensures
            match done {
                Ok(dictionary) => {
                    &&& dictionary.wf()
                    &&& ron_locale_table(ron@) matches Ok(pairs)
                    &&& dictionary@ == old(self)@.merge(locale@, table_map(pairs))
                    &&& *final(self) == *final(dictionary)
                },
                Err(error) => {
                    &&& ron_locale_table(ron@) matches Err(diagnostic)
                    &&& diagnostic == error@
                    &&& *final(self) == *old(self)
                },
            },
    {
        match parse_locale_table(ron) {
            Ok(pairs) => {
                self.resource.merge(locale, &pairs);
                Ok(self)
            },
            Err(error) => Err(error),
        }
    }

    /// The translation of `key` for the current locale.
    pub fn get(&self, key: &str) -> (found: Option<&str>)
        requires
            self.wf(),
        ensures
            match found {
                Some(text) => self@.lookup(key@) == Some(text@),
                None => self@.lookup(key@) is None,
            },
    {
        match &self.locale {
            Some(locale) => match self.resource.get(key, locale.as_str()) {
                Some(text) => Some(text.as_str()),
                None => None,
            },
            None => None,
        }
    }

    /// The template that stands for `template`: its translation for the
    /// current locale, or `template` itself where it has none.
    pub fn resolve<'a>(&'a self, template: &'a str) -> (resolved: &'a str)
        requires
            self.wf(),
        ensures
            resolved@ == self@.resolve(template@),
    {
        match self.get(template) {
            Some(text) => text,
            None => template,
        }
    }

    /// Translates `template` and renders the result with `arguments`.
    pub fn translate(&self, template: &str, arguments: &Arguments) -> (translated: Result<
        String,
        FormatError,
    >)
        requires
            self.wf(),
        ensures
            match translated {
                Ok(text) => self@.translate(template@, arguments@) == Ok::<
                    Seq<char>,
                    FormatErrorView,
                >(text@),
                Err(error) => self@.translate(template@, arguments@) == Err::<
                    Seq<char>,
                    FormatErrorView,
                >(error@),
            },
            without_braces(self@.resolve(template@)) ==> (translated matches Ok(text) && text@
                == self@.resolve(template@)),
    {
        render(self.resolve(template), arguments)
    }
}

impl Default for Dictionary {
    fn default() -> (dictionary: Self)
        ensures
            dictionary.wf(),
            dictionary@.locale is None,
            dictionary@.resource == Map::<Seq<char>, Map<Seq<char>, Seq<char>>>::empty(),
    {
        Dictionary::new()
    }
}

} // verus!
