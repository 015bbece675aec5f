//! The two-level table of translations: template, then locale, then text.

use vstd::hash_map::StringHashMap;
use vstd::prelude::*;

verus! {

/// A one-level table as a mathematical map: the pairs taken in order, a later
/// pair replacing an earlier one with the same key.
pub open spec fn table_map(pairs: Seq<(Seq<char>, Seq<char>)>) -> Map<Seq<char>, Seq<char>>
    decreases pairs.len(),
{
    if pairs.len() == 0 {
        Map::empty()
    } else {
        table_map(pairs.drop_last()).insert(pairs.last().0, pairs.last().1)
    }
}

/// The characters of each pair of strings.
pub open spec fn pairs_view(pairs: Seq<(String, String)>) -> Seq<(Seq<char>, Seq<char>)> {
    pairs.map_values(|pair: (String, String)| (pair.0@, pair.1@))
}

/// A two-level table as a mathematical map: the entries taken in order, a
/// later entry replacing an earlier one with the same template.
pub open spec fn snapshot_map(entries: Seq<(Seq<char>, Seq<(Seq<char>, Seq<char>)>)>) -> Map<
    Seq<char>,
    Map<Seq<char>, Seq<char>>,
>
    decreases entries.len(),
{
    if entries.len() == 0 {
        Map::empty()
    } else {
        snapshot_map(entries.drop_last()).insert(entries.last().0, table_map(entries.last().1))
    }
}

/// The characters of each entry of a two-level table.
pub open spec fn entries_view(entries: Seq<(String, Vec<(String, String)>)>) -> Seq<
    (Seq<char>, Seq<(Seq<char>, Seq<char>)>),
> {
    entries.map_values(|entry: (String, Vec<(String, String)>)| (entry.0@, pairs_view(entry.1@)))
}

/// No two pairs have the same first part.
pub open spec fn distinct_keys<V>(pairs: Seq<(Seq<char>, V)>) -> bool {
    forall|i: int, j: int| 0 <= i < j < pairs.len() ==> (#[trigger] pairs[i]).0 != (#[trigger] pairs[j]).0
}

/// The translations of `key`, or none where the resource has no such template.
pub open spec fn translations_of(
    resource: Map<Seq<char>, Map<Seq<char>, Seq<char>>>,
    key: Seq<char>,
) -> Map<Seq<char>, Seq<char>> {
    if resource.contains_key(key) {
        resource[key]
    } else {
        Map::empty()
    }
}

/// The text stored for `key` under `locale`, if there is one.
pub open spec fn translation(
    resource: Map<Seq<char>, Map<Seq<char>, Seq<char>>>,
    key: Seq<char>,
    locale: Seq<char>,
) -> Option<Seq<char>> {
    if resource.contains_key(key) && resource[key].contains_key(locale) {
        Some(resource[key][locale])
    } else {
        None
    }
}

/// `resource` with `text` stored for `key` under `locale`; the translations
/// that `key` has under other locales stay.
pub open spec fn with_translation(
    resource: Map<Seq<char>, Map<Seq<char>, Seq<char>>>,
    key: Seq<char>,
    locale: Seq<char>,
    text: Seq<char>,
) -> Map<Seq<char>, Map<Seq<char>, Seq<char>>> {
    resource.insert(key, translations_of(resource, key).insert(locale, text))
}

/// `resource` after every entry of `table` has been stored under `locale`.
/// Templates that `table` does not name are untouched, and so are the other
/// locales of those it names.
pub open spec fn merged(
    resource: Map<Seq<char>, Map<Seq<char>, Seq<char>>>,
    locale: Seq<char>,
    table: Map<Seq<char>, Seq<char>>,
) -> Map<Seq<char>, Map<Seq<char>, Seq<char>>> {
    Map::new(
        |key: Seq<char>| resource.contains_key(key) || table.contains_key(key),
        |key: Seq<char>|
            if table.contains_key(key) {
                translations_of(resource, key).insert(locale, table[key])
            } else {
                resource[key]
            },
    )
}

/// Storing one more entry of a table is merging the table that has it.
pub proof fn lemma_merged_step(
    resource: Map<Seq<char>, Map<Seq<char>, Seq<char>>>,
    locale: Seq<char>,
    table: Map<Seq<char>, Seq<char>>,
    key: Seq<char>,
    text: Seq<char>,
)
    ensures
        with_translation(merged(resource, locale, table), key, locale, text) == merged(
            resource,
            locale,
            table.insert(key, text),
        ),
{
    let stepped = with_translation(merged(resource, locale, table), key, locale, text);
    let whole = merged(resource, locale, table.insert(key, text));
    assert(stepped.dom() =~= whole.dom());
    assert forall|other: Seq<char>| stepped.contains_key(other) implies stepped[other]
        == whole[other] by {
        if other == key {
            assert(stepped[other] =~= whole[other]);
        }
    }
    assert(stepped =~= whole);
}

struct Item<V> {
    key: String,
    value: V,
}

/// A map keyed by strings that remembers the order in which its keys came:
/// the items in a list, and a hash index from each key to its place there.
struct Table<V> {
    index: StringHashMap<usize>,
    items: Vec<Item<V>>,
}

impl<V> Table<V> {
    /// The index and the list name the same keys: each indexed key points at
    /// the item that bears it, and each item is indexed at its own place.
    spec fn wf(&self) -> bool {
        &&& forall|key: Seq<char>| #[trigger]
            self.index@.contains_key(key) ==> {
                &&& self.index@[key] < self.items.len()
                &&& self.items[self.index@[key] as int].key@ == key
            }
        &&& forall|at: int|
            0 <= at < self.items.len() ==> {
                &&& self.index@.contains_key(#[trigger] self.items[at].key@)
                &&& self.index@[self.items[at].key@] == at
            }
    }

    spec fn map(&self) -> Map<Seq<char>, V> {
        Map::new(
            |key: Seq<char>| self.index@.contains_key(key),
            |key: Seq<char>| self.items[self.index@[key] as int].value,
        )
    }

    fn new() -> (table: Self)
        ensures
            table.wf(),
            table.items.len() == 0,
            table.map() == Map::<Seq<char>, V>::empty(),
    {
        let table = Table { index: StringHashMap::new(), items: Vec::new() };
        assert(table.map() =~= Map::<Seq<char>, V>::empty());
        table
    }

    fn position(&self, key: &str) -> (found: Option<usize>)
        requires
            self.wf(),
        ensures
            match found {
                Some(at) => {
                    &&& self.index@.contains_key(key@)
                    &&& self.index@[key@] == at
                    &&& at < self.items.len()
                },
                None => !self.index@.contains_key(key@),
            },
    {
        match self.index.get(key) {
            Some(at) => Some(*at),
            None => None,
        }
    }

    fn get(&self, key: &str) -> (found: Option<&V>)
        requires
            self.wf(),
        ensures
            match found {
                Some(value) => self.map().contains_key(key@) && self.map()[key@] == *value,
                None => !self.map().contains_key(key@),
            },
    {
        match self.index.get(key) {
            Some(at) => Some(&self.items[*at].value),
            None => None,
        }
    }

    fn set(&mut self, key: &str, value: V)
        requires
            old(self).wf(),
        ensures
            final(self).wf(),
            final(self).map() == old(self).map().insert(key@, value),
    {
        match self.position(key) {
            Some(at) => {
                self.items[at].value = value;
                assert(self.map() =~= old(self).map().insert(key@, value));
            },
            None => {
                let at = self.items.len();
                self.items.push(Item { key: key.to_owned(), value });
                self.index.insert(key.to_owned(), at);
                assert(self.map() =~= old(self).map().insert(key@, value));
            },
        }
    }
}

spec fn texts(table: Map<Seq<char>, String>) -> Map<Seq<char>, Seq<char>> {
    table.map_values(|text: String| text@)
}

impl Table<String> {
    /// The texts of the first `count` items, by key.
    spec fn listed(&self, count: int) -> Map<Seq<char>, Seq<char>> {
        Map::new(
            |key: Seq<char>| self.index@.contains_key(key) && self.index@[key] < count,
            |key: Seq<char>| self.items[self.index@[key] as int].value@,
        )
    }

    fn pairs(&self) -> (pairs: Vec<(String, String)>)
        requires
            self.wf(),
        ensures
            table_map(pairs_view(pairs@)) == texts(self.map()),
            distinct_keys(pairs_view(pairs@)),
    {
        let mut pairs: Vec<(String, String)> = Vec::new();
        proof {
            assert(table_map(pairs_view(pairs@)) =~= self.listed(0));
        }
        let mut done: usize = 0;
        while done < self.items.len()
            invariant
                done <= self.items.len(),
                self.wf(),
                pairs.len() == done,
                forall|at: int| 0 <= at < done ==> (#[trigger] pairs[at]).0@ == self.items[at].key@,
                table_map(pairs_view(pairs@)) == self.listed(done as int),
            decreases self.items.len() - done,
        {
            let ghost before = pairs_view(pairs@);
            let key = self.items[done].key.clone();
            let text = self.items[done].value.clone();
            pairs.push((key, text));
            proof {
                let after = pairs_view(pairs@);
                assert(after.drop_last() =~= before);
                assert(after.last() == (key@, text@));
                assert(self.index@.contains_key(self.items[done as int].key@));
                assert(table_map(after) =~= self.listed(done + 1));
            }
            done += 1;
        }
        proof {
            assert(self.listed(done as int) =~= texts(self.map()));
            let listed = pairs_view(pairs@);
            assert forall|i: int, j: int| 0 <= i < j < listed.len() implies (#[trigger] listed[i]).0
                != (#[trigger] listed[j]).0 by {
                assert(pairs[i].0@ == self.items[i].key@);
                assert(pairs[j].0@ == self.items[j].key@);
                assert(self.index@[self.items[i].key@] == i);
                assert(self.index@[self.items[j].key@] == j);
            }
        }
        pairs
    }
}

/// Translations by template and locale.
pub struct Resource {
    templates: Table<Table<String>>,
}

impl View for Resource {
    type V = Map<Seq<char>, Map<Seq<char>, Seq<char>>>;

    closed spec fn view(&self) -> Map<Seq<char>, Map<Seq<char>, Seq<char>>> {
        self.templates.map().map_values(|table: Table<String>| texts(table.map()))
    }
}

impl Resource {
    /// The representation is consistent: on both levels the hash index
    /// and the list of items name the same keys.
    pub closed spec fn wf(&self) -> bool {
        &&& self.templates.wf()
        &&& forall|key: Seq<char>| #[trigger]
            self.templates.map().contains_key(key) ==> self.templates.map()[key].wf()
    }

    /// A resource without templates.
    pub fn new() -> (resource: Self)
        ensures
            resource.wf(),
            resource@ == Map::<Seq<char>, Map<Seq<char>, Seq<char>>>::empty(),
    {
        let resource = Resource { templates: Table::new() };
        assert(resource@ =~= Map::<Seq<char>, Map<Seq<char>, Seq<char>>>::empty());
        resource
    }

    /// The text stored for `key` under `locale`.
    pub fn get(&self, key: &str, locale: &str) -> (found: Option<&String>)
        requires
            self.wf(),
        ensures
            match found {
                Some(text) => translation(self@, key@, locale@) == Some(text@),
                None => translation(self@, key@, locale@) is None,
            },
    {
        match self.templates.position(key) {
            Some(at) => {
                assert(self.templates.map().contains_key(key@));
                assert(self.templates.map()[key@] == self.templates.items[at as int].value);
                self.templates.items[at].value.get(locale)
            },
            None => None,
        }
    }

    /// Stores `text` for `key` under `locale`, over what was there.
    pub fn insert(&mut self, key: &str, locale: &str, text: String)
        requires
            old(self).wf(),
        ensures
            final(self).wf(),
            final(self)@ == with_translation(old(self)@, key@, locale@, text@),
    {
        match self.templates.position(key) {
            Some(at) => {
                assert(self.templates.map().contains_key(key@));
                assert(self.templates.map()[key@] == self.templates.items[at as int].value);
                self.templates.items[at].value.set(locale, text);
                proof {
                    let before = old(self).templates.items[at as int].value.map();
                    let after = self.templates.items[at as int].value.map();
                    assert(texts(after) =~= texts(before).insert(locale@, text@));
                    assert(self@ =~= with_translation(old(self)@, key@, locale@, text@));
                }
            },
            None => {
                let mut table: Table<String> = Table::new();
                table.set(locale, text);
                proof {
                    assert(texts(table.map()) =~= Map::<Seq<char>, Seq<char>>::empty().insert(
                        locale@,
                        text@,
                    ));
                }
                self.templates.set(key, table);
                proof {
                    assert(self@ =~= with_translation(old(self)@, key@, locale@, text@));
                }
            },
        }
    }

    /// Stores every pair of `table` under `locale`, in order.
    pub fn merge(&mut self, locale: &str, table: &Vec<(String, String)>)
        requires
            old(self).wf(),
        ensures
            final(self).wf(),
            final(self)@ == merged(old(self)@, locale@, table_map(pairs_view(table@))),
    {
        let ghost pairs = pairs_view(table@);
        proof {
            assert(merged(old(self)@, locale@, Map::empty()) =~= old(self)@);
            assert(pairs.take(0) =~= Seq::empty());
        }
        let mut done: usize = 0;
        while done < table.len()
            invariant
                done <= table.len(),
                pairs == pairs_view(table@),
                self.wf(),
                self@ == merged(old(self)@, locale@, table_map(pairs.take(done as int))),
            decreases table.len() - done,
        {
            let key = table[done].0.as_str();
            let text = table[done].1.clone();
            self.insert(key, locale, text);
            proof {
                let next = pairs.take(done + 1);
                assert(next.drop_last() =~= pairs.take(done as int));
                assert(next.last() == pairs[done as int]);
                lemma_merged_step(
                    old(self)@,
                    locale@,
                    table_map(pairs.take(done as int)),
                    key@,
                    text@,
                );
            }
            done += 1;
        }
        proof {
            assert(pairs.take(done as int) =~= pairs);
        }
    }

    /// Gives `key` exactly the translations in `translations`, in place of
    /// those it had.
    pub fn install(&mut self, key: &str, translations: &Vec<(String, String)>)
        requires
            old(self).wf(),
        ensures
            final(self).wf(),
            final(self)@ == old(self)@.insert(key@, table_map(pairs_view(translations@))),
    {
        let ghost pairs = pairs_view(translations@);
        let mut table: Table<String> = Table::new();
        proof {
            assert(pairs.take(0) =~= Seq::empty());
            assert(texts(table.map()) =~= table_map(pairs.take(0)));
        }
        let mut done: usize = 0;
        while done < translations.len()
            invariant
                done <= translations.len(),
                pairs == pairs_view(translations@),
                table.wf(),
                texts(table.map()) == table_map(pairs.take(done as int)),
            decreases translations.len() - done,
        {
            let ghost before = table.map();
            let text = translations[done].1.clone();
            table.set(translations[done].0.as_str(), text);
            proof {
                let next = pairs.take(done + 1);
                assert(next.drop_last() =~= pairs.take(done as int));
                assert(next.last() == pairs[done as int]);
                assert(texts(table.map()) =~= texts(before).insert(
                    translations[done as int].0@,
                    text@,
                ));
            }
            done += 1;
        }
        proof {
            assert(pairs.take(done as int) =~= pairs);
        }
        self.templates.set(key, table);
        proof {
            assert(self@ =~= old(self)@.insert(key@, table_map(pairs)));
        }
    }

    /// The resource that holds the entries of a two-level table.
    pub fn from_entries(entries: &Vec<(String, Vec<(String, String)>)>) -> (resource: Self)
        ensures
            resource.wf(),
            resource@ == snapshot_map(entries_view(entries@)),
    {
        let ghost all = entries_view(entries@);
        let mut resource = Resource::new();
        proof {
            assert(all.take(0) =~= Seq::empty());
        }
        let mut done: usize = 0;
        while done < entries.len()
            invariant
                done <= entries.len(),
                all == entries_view(entries@),
                resource.wf(),
                resource@ == snapshot_map(all.take(done as int)),
            decreases entries.len() - done,
        {
            resource.install(entries[done].0.as_str(), &entries[done].1);
            proof {
                let next = all.take(done + 1);
                assert(next.drop_last() =~= all.take(done as int));
                assert(next.last() == all[done as int]);
            }
            done += 1;
        }
        proof {
            assert(all.take(done as int) =~= all);
        }
        resource
    }

    /// The translations of the first `count` templates, by template.
    spec fn listed(&self, count: int) -> Map<Seq<char>, Map<Seq<char>, Seq<char>>> {
        Map::new(
            |key: Seq<char>|
                self.templates.index@.contains_key(key) && self.templates.index@[key] < count,
            |key: Seq<char>|
                texts(self.templates.items[self.templates.index@[key] as int].value.map()),
        )
    }

    /// Everything the resource holds, as a two-level table: each template
    /// once, with each of its locales once.
    pub fn entries(&self) -> (entries: Vec<(String, Vec<(String, String)>)>)
        requires
            self.wf(),
        ensures
            snapshot_map(entries_view(entries@)) == self@,
            distinct_keys(entries_view(entries@)),
            forall|at: int|
                0 <= at < entries.len() ==> distinct_keys((#[trigger] entries_view(entries@)[at]).1),
    {
        let mut entries: Vec<(String, Vec<(String, String)>)> = Vec::new();
        proof {
            assert(snapshot_map(entries_view(entries@)) =~= self.listed(0));
        }
        let mut done: usize = 0;
        while done < self.templates.items.len()
            invariant
                done <= self.templates.items.len(),
                self.wf(),
                entries.len() == done,
                forall|at: int|
                    0 <= at < done ==> (#[trigger] entries[at]).0@ == self.templates.items[at].key@,
                forall|at: int|
                    0 <= at < done ==> distinct_keys((#[trigger] entries_view(entries@)[at]).1),
                snapshot_map(entries_view(entries@)) == self.listed(done as int),
            decreases self.templates.items.len() - done,
        {
            let ghost before = entries_view(entries@);
            let key = self.templates.items[done].key.clone();
            proof {
                assert(self.templates.index@.contains_key(self.templates.items[done as int].key@));
                assert(self.templates.map().contains_key(self.templates.items[done as int].key@));
            }
            let pairs = self.templates.items[done].value.pairs();
            entries.push((key, pairs));
            proof {
                let after = entries_view(entries@);
                assert(after.drop_last() =~= before);
                assert(after.last() == (key@, pairs_view(pairs@)));
                assert(snapshot_map(after) =~= self.listed(done + 1));
                assert forall|at: int| 0 <= at < done + 1 implies distinct_keys(
                    (#[trigger] after[at]).1,
                ) by {
                    if at < done {
                        assert(after[at] == before[at]);
                    }
                }
            }
            done += 1;
        }
        proof {
            assert(self.listed(done as int) =~= self@);
            let listed = entries_view(entries@);
            assert forall|i: int, j: int| 0 <= i < j < listed.len() implies (#[trigger] listed[i]).0
                != (#[trigger] listed[j]).0 by {
                assert(entries[i].0@ == self.templates.items[i].key@);
                assert(entries[j].0@ == self.templates.items[j].key@);
                assert(self.templates.index@[self.templates.items[i].key@] == i);
                assert(self.templates.index@[self.templates.items[j].key@] == j);
            }
        }
        entries
    }
}

} // verus!
