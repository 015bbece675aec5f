//! What holds of every dictionary, stated over its view.

use vstd::prelude::*;

use crate::dictionary::DictionaryView;
use crate::render::{rendering, ArgumentsView};
use crate::resource::snapshot_map;
use crate::snapshot::ron_snapshot;

verus! {

/// A template that has no entry, in a dictionary without a locale, has no
/// translation, and translating it is rendering the template itself.
pub proof fn law_untranslated_template_is_rendered_as_is(
    dictionary: DictionaryView,
    template: Seq<char>,
    arguments: ArgumentsView,
)
    requires
        dictionary.locale is None,
        !dictionary.resource.contains_key(template),
    ensures
        dictionary.lookup(template) is None,
        dictionary.translate(template, arguments) == rendering(template, arguments),
{
}

/// After a table has been merged under a locale, and with that locale in
/// use, each template of the table translates to the text the table gave it.
pub proof fn law_merged_text_is_found(
    dictionary: DictionaryView,
    locale: Seq<char>,
    table: Map<Seq<char>, Seq<char>>,
    template: Seq<char>,
)
    requires
        table.contains_key(template),
    ensures
        dictionary.merge(locale, table).with_locale(Some(locale)).lookup(template) == Some(
            table[template],
        ),
{
}

/// Merging is additive across locales: after one table has been merged
/// under one locale and another under a different locale, a template that
/// both tables name has, under each locale, the text that the table of that
/// locale gave it.
pub proof fn law_merge_keeps_other_locales(
    dictionary: DictionaryView,
    first_locale: Seq<char>,
    first: Map<Seq<char>, Seq<char>>,
    second_locale: Seq<char>,
    second: Map<Seq<char>, Seq<char>>,
    template: Seq<char>,
)
    requires
        first_locale != second_locale,
        first.contains_key(template),
        second.contains_key(template),
    ensures
        ({
            let both = dictionary.merge(first_locale, first).merge(second_locale, second);
            &&& both.with_locale(Some(first_locale)).lookup(template) == Some(first[template])
            &&& both.with_locale(Some(second_locale)).lookup(template) == Some(second[template])
        }),
{
}

/// Merging leaves alone what it does not name: a template outside the table
/// keeps all its translations, and a template of the table keeps those of
/// every other locale.
pub proof fn law_merge_changes_nothing_else(
    dictionary: DictionaryView,
    locale: Seq<char>,
    table: Map<Seq<char>, Seq<char>>,
    template: Seq<char>,
    other_locale: Seq<char>,
)
    requires
        !table.contains_key(template) || other_locale != locale,
    ensures
        dictionary.merge(locale, table).with_locale(Some(other_locale)).lookup(template)
            == dictionary.with_locale(Some(other_locale)).lookup(template),
{
}

/// Merging the same table under the same locale a second time changes
/// nothing.
pub proof fn law_merge_is_idempotent(
    dictionary: DictionaryView,
    locale: Seq<char>,
    table: Map<Seq<char>, Seq<char>>,
)
    ensures
        dictionary.merge(locale, table).merge(locale, table) == dictionary.merge(locale, table),
{
    let once = dictionary.merge(locale, table);
    let twice = once.merge(locale, table);
    assert forall|template: Seq<char>| twice.resource.contains_key(template) implies
        twice.resource[template] == once.resource[template] by {
        if table.contains_key(template) {
            assert(twice.resource[template] =~= once.resource[template]);
        }
    }
    assert(twice.resource =~= once.resource);
}

/// Reading a snapshot and listing the resource that was read gives back the
/// content of the snapshot: the same templates, locales and texts, whatever
/// their order. `read` is what `Dictionary::from_ron` returns for `text`,
/// and `listed` what `Resource::entries` returns for its resource.
pub proof fn law_listing_gives_back_what_was_read(
    text: Seq<char>,
    read: DictionaryView,
    listed: Seq<(Seq<char>, Seq<(Seq<char>, Seq<char>)>)>,
)
    requires
        ron_snapshot(text) matches Ok(entries) && read.resource == snapshot_map(entries),
        snapshot_map(listed) == read.resource,
    ensures
        ron_snapshot(text) matches Ok(entries) && snapshot_map(listed) == snapshot_map(entries),
{
}

} // verus!
