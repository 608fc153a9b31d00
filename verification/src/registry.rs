//! The resource registry: declarative descriptions of the resource types
//! that the client can browse, and named colour maps for their values. A
//! registry is built once, by merging descriptions, and only read after.

use crate::document::Document;
use crate::text::{
    chars_of, lemma_lex_irreflexive, lemma_lex_total, lemma_lex_transitive, lex_less, lex_lt,
    str_eq,
};
use vstd::prelude::*;
use vstd::string::*;

verus! {

/// The colour that a colour map gives to one value.
#[derive(Debug, Clone)]
pub struct ColorDef {
    pub value: String,
    pub color: [u8; 3],
}

/// One column of a resource's table.
#[derive(Debug, Clone)]
pub struct ColumnDef {
    pub header: String,
    /// The path of the column's value in an item.
    pub json_path: String,
    /// The column's width in percent.
    pub width: u16,
    pub color_map: Option<String>,
    pub format: Option<String>,
}

/// A resource that is reached from an item of another one.
#[derive(Debug, Clone)]
pub struct SubResourceDef {
    /// The child resource.
    pub resource_key: String,
    pub display_name: String,
    pub shortcut: String,
    /// The path, in the parent item, of the identifier to filter by.
    pub parent_id_field: String,
    /// The name of the request parameter that carries that identifier.
    pub filter_param: String,
}

/// How an action asks for confirmation.
#[derive(Debug, Clone)]
pub struct ConfirmConfig {
    pub message: Option<String>,
    pub default_yes: bool,
    pub destructive: bool,
}

impl Default for ConfirmConfig {
    fn default() -> (config: ConfirmConfig)
        ensures
            config.message is None,
            !config.default_yes,
            !config.destructive,
    {
        ConfirmConfig { message: None, default_yes: false, destructive: false }
    }
}

/// An action on an item of a resource.
#[derive(Debug, Clone)]
pub struct ActionDef {
    pub key: String,
    pub display_name: String,
    pub shortcut: Option<String>,
    /// The verb to invoke on the resource's service.
    pub sdk_method: String,
    pub id_param: Option<String>,
    pub needs_confirm: bool,
    pub confirm: Option<ConfirmConfig>,
}

/// The confirmation policy that applies to an action.
pub open spec fn confirm_policy(action: ActionDef) -> Option<ConfirmConfig> {
    match action.confirm {
        Some(config) => Some(config),
        None => if action.needs_confirm {
            Some(
                ConfirmConfig {
                    message: Some(action.display_name),
                    default_yes: false,
                    destructive: false,
                },
            )
        } else {
            None
        },
    }
}

impl ActionDef {
    /// The confirmation policy of this action: its own where it has one,
    /// a plain one under the action's display name where it only asks for
    /// confirmation, none otherwise.
    pub fn get_confirm_config(&self) -> (config: Option<ConfirmConfig>)
        ensures
            match confirm_policy(*self) {
                Some(policy) => config matches Some(c) && c.default_yes == policy.default_yes
                    && c.destructive == policy.destructive && match policy.message {
                    Some(message) => c.message matches Some(m) && m@ == message@,
                    None => c.message is None,
                },
                None => config is None,
            },
    {
        match &self.confirm {
            Some(config) => Some(
                ConfirmConfig {
                    message: match &config.message {
                        Some(message) => Some(message.clone()),
                        None => None,
                    },
                    default_yes: config.default_yes,
                    destructive: config.destructive,
                },
            ),
            None => if self.needs_confirm {
                Some(
                    ConfirmConfig {
                        message: Some(self.display_name.clone()),
                        default_yes: false,
                        destructive: false,
                    },
                )
            } else {
                None
            },
        }
    }
}

/// The description of one resource type.
#[derive(Debug, Clone)]
pub struct ResourceDef {
    pub display_name: String,
    /// The service that lists the resource.
    pub service: String,
    /// The verb that lists it.
    pub sdk_method: String,
    /// The base parameters of the listing request.
    pub sdk_method_params: Document,
    /// The path of the item list in the response.
    pub response_path: String,
    pub id_field: String,
    pub name_field: String,
    pub is_global: bool,
    pub columns: Vec<ColumnDef>,
    pub sub_resources: Vec<SubResourceDef>,
    pub actions: Vec<ActionDef>,
    pub detail_sdk_method: Option<String>,
    pub detail_sdk_method_params: Document,
}

/// A named request parameter with its values.
#[derive(Debug, Clone)]
pub struct ResourceFilter {
    pub name: String,
    pub values: Vec<String>,
}

impl ResourceFilter {
    pub fn new(name: &str, values: Vec<String>) -> (filter: ResourceFilter)
        ensures
            filter.name@ == name@,
            filter.values == values,
    {
        ResourceFilter { name: String::from_str(name), values }
    }
}

/// The position of the first entry under a key, or the number of entries
/// where there is none.
pub open spec fn entry_position<T>(entries: Seq<(String, T)>, key: Seq<char>) -> int
    decreases entries.len(),
{
    if entries.len() == 0 {
        0
    } else if entries[0].0@ == key {
        0
    } else {
        1 + entry_position(entries.skip(1), key)
    }
}

/// Where an entry has the key and none before it has, that is the key's
/// position.
pub proof fn lemma_entry_position_is<T>(entries: Seq<(String, T)>, key: Seq<char>, at: int)
    requires
        0 <= at <= entries.len(),
        forall|i: int| 0 <= i < at ==> (#[trigger] entries[i]).0@ != key,
        at < entries.len() ==> entries[at].0@ == key,
    ensures
        entry_position(entries, key) == at,
    decreases entries.len(),
{
    if entries.len() > 0 && at > 0 {
        assert(entries[0].0@ != key);
        assert forall|i: int| 0 <= i < at - 1 implies (#[trigger] entries.skip(1)[i]).0@ != key by {
            assert(entries.skip(1)[i] == entries[i + 1]);
        }
        lemma_entry_position_is(entries.skip(1), key, at - 1);
    }
}

/// The entry under a key, if there is one.
pub open spec fn entry<T>(entries: Seq<(String, T)>, key: Seq<char>) -> Option<T> {
    if entry_position(entries, key) < entries.len() {
        Some(entries[entry_position(entries, key)].1)
    } else {
        None
    }
}

/// The entries with `value` under `key`: in the place of the entry that
/// had the key, or at the end where none had.
pub open spec fn with_entry<T>(entries: Seq<(String, T)>, key: String, value: T) -> Seq<
    (String, T),
> {
    if entry_position(entries, key@) < entries.len() {
        entries.update(entry_position(entries, key@), (key, value))
    } else {
        entries.push((key, value))
    }
}

/// The entries after all of `more` were put into them, in order: a key of
/// `more` that is already there gets the new value.
pub open spec fn merged_entries<T>(entries: Seq<(String, T)>, more: Seq<(String, T)>) -> Seq<
    (String, T),
>
    decreases more.len(),
{
    if more.len() == 0 {
        entries
    } else {
        with_entry(merged_entries(entries, more.drop_last()), more.last().0, more.last().1)
    }
}

/// The position of the first entry under a key.
fn find_entry<T>(entries: &Vec<(String, T)>, key: &str) -> (at: usize)
    ensures
        at == entry_position(entries@, key@),
        at <= entries@.len(),
{
    let mut at: usize = 0;
    while at < entries.len()
        invariant
            at <= entries@.len(),
            forall|i: int| 0 <= i < at ==> (#[trigger] entries@[i]).0@ != key@,
        decreases entries@.len() - at,
    {
        if str_eq(entries[at].0.as_str(), key) {
            proof {
                lemma_entry_position_is(entries@, key@, at as int);
            }
            return at;
        }
        at += 1;
    }
    proof {
        lemma_entry_position_is(entries@, key@, at as int);
    }
    at
}

/// Puts a value under a key.
fn put_entry<T>(entries: &mut Vec<(String, T)>, key: String, value: T)
    ensures
        final(entries)@ == with_entry(old(entries)@, key, value),
{
    let at = find_entry(entries, key.as_str());
    if at < entries.len() {
        entries.set(at, (key, value));
    } else {
        entries.push((key, value));
    }
}

/// Puts all of `more` into the entries, in order.
fn merge_entries<T>(entries: &mut Vec<(String, T)>, more: Vec<(String, T)>)
    ensures
        final(entries)@ == merged_entries(old(entries)@, more@),
{
    let mut rest = more;
    let ghost all = more@;
    let mut taken: Vec<(String, T)> = Vec::new();
    // Entries can only be moved out from the end: turn the list round first.
    while rest.len() > 0
        invariant
            rest@.len() + taken@.len() == all.len(),
            forall|i: int| 0 <= i < taken@.len() ==> taken@[i] == all[all.len() - 1 - i],
            forall|i: int| 0 <= i < rest@.len() ==> rest@[i] == all[i],
        decreases rest@.len(),
    {
        let last = rest.pop().unwrap();
        taken.push(last);
    }
    let ghost start = entries@;
    assert(all.take(0) =~= Seq::empty());
    while taken.len() > 0
        invariant
            taken@.len() <= all.len(),
            forall|i: int| 0 <= i < taken@.len() ==> taken@[i] == all[all.len() - 1 - i],
            entries@ == merged_entries(start, all.take(all.len() - taken@.len())),
        decreases taken@.len(),
    {
        let ghost done = all.len() - taken@.len();
        let (key, value) = taken.pop().unwrap();
        proof {
            assert(all[done] == (key, value));
            assert(all.take(done + 1).drop_last() =~= all.take(done));
            assert(all.take(done + 1).last() == all[done]);
        }
        put_entry(entries, key, value);
    }
    assert(all.take(all.len() as int) =~= all);
}

/// A registry: named colour maps and named resource definitions. Looking a
/// name up takes the first entry of that name.
#[derive(Debug, Clone)]
pub struct ResourceConfig {
    pub color_maps: Vec<(String, Vec<ColorDef>)>,
    pub resources: Vec<(String, ResourceDef)>,
}

impl ResourceConfig {
    /// A registry with nothing in it.
    pub fn new() -> (registry: ResourceConfig)
        ensures
            registry.color_maps@.len() == 0,
            registry.resources@.len() == 0,
    {
        ResourceConfig { color_maps: Vec::new(), resources: Vec::new() }
    }

    /// Merges a description into the registry. A name that the registry
    /// already holds gets the description's entry: the last one merged wins.
    pub fn merge(&mut self, more: ResourceConfig)
        ensures
            final(self).color_maps@ == merged_entries(old(self).color_maps@, more.color_maps@),
            final(self).resources@ == merged_entries(old(self).resources@, more.resources@),
    {
        merge_entries(&mut self.color_maps, more.color_maps);
        merge_entries(&mut self.resources, more.resources);
    }
}

/// The definition of a resource, if the registry holds one under the key.
pub fn get_resource<'a>(registry: &'a ResourceConfig, key: &str) -> (found: Option<
    &'a ResourceDef,
>)
    ensures
        match entry(registry.resources@, key@) {
            Some(definition) => found matches Some(d) && *d == definition,
            None => found is None,
        },
{
    let at = find_entry(&registry.resources, key);
    if at < registry.resources.len() {
        Some(&registry.resources[at].1)
    } else {
        None
    }
}

/// The colour map of a name, if the registry holds one.
pub fn get_color_map<'a>(registry: &'a ResourceConfig, name: &str) -> (found: Option<
    &'a Vec<ColorDef>,
>)
    ensures
        match entry(registry.color_maps@, name@) {
            Some(map) => found matches Some(m) && *m == map,
            None => found is None,
        },
{
    let at = find_entry(&registry.color_maps, name);
    if at < registry.color_maps.len() {
        Some(&registry.color_maps[at].1)
    } else {
        None
    }
}

/// The position of the first colour of a map that is given to a value, or
/// the size of the map where there is none.
pub open spec fn color_position(map: Seq<ColorDef>, value: Seq<char>) -> int
    decreases map.len(),
{
    if map.len() == 0 {
        0
    } else if map[0].value@ == value {
        0
    } else {
        1 + color_position(map.skip(1), value)
    }
}

/// Where a colour has the value and none before it has, that is the
/// value's position.
pub proof fn lemma_color_position_is(map: Seq<ColorDef>, value: Seq<char>, at: int)
    requires
        0 <= at <= map.len(),
        forall|i: int| 0 <= i < at ==> (#[trigger] map[i]).value@ != value,
        at < map.len() ==> map[at].value@ == value,
    ensures
        color_position(map, value) == at,
    decreases map.len(),
{
    if map.len() > 0 && at > 0 {
        assert(map[0].value@ != value);
        assert forall|i: int| 0 <= i < at - 1 implies (#[trigger] map.skip(1)[i]).value@
            != value by {
            assert(map.skip(1)[i] == map[i + 1]);
        }
        lemma_color_position_is(map.skip(1), value, at - 1);
    }
}

/// The colour that a named map gives to a value: that of the map's first
/// entry for the value.
pub open spec fn color_of(registry: ResourceConfig, map_name: Seq<char>, value: Seq<char>) -> Option<
    [u8; 3],
> {
    match entry(registry.color_maps@, map_name) {
        Some(map) => if color_position(map@, value) < map@.len() {
            Some(map@[color_position(map@, value)].color)
        } else {
            None
        },
        None => None,
    }
}

/// The colour that a named map gives to a value; none where the registry
/// has no such map or the map no such value.
pub fn get_color_for_value(registry: &ResourceConfig, color_map_name: &str, value: &str) -> (color:
    Option<[u8; 3]>)
    ensures
        color == color_of(*registry, color_map_name@, value@),
{
    match get_color_map(registry, color_map_name) {
        None => None,
        Some(map) => {
            let mut at: usize = 0;
            while at < map.len()
                invariant
                    at <= map@.len(),
                    entry(registry.color_maps@, color_map_name@) == Some(*map),
                    forall|i: int| 0 <= i < at ==> (#[trigger] map@[i]).value@ != value@,
                decreases map@.len() - at,
            {
                if str_eq(map[at].value.as_str(), value) {
                    proof {
                        lemma_color_position_is(map@, value@, at as int);
                    }
                    return Some(map[at].color);
                }
                at += 1;
            }
            proof {
                lemma_color_position_is(map@, value@, at as int);
            }
            None
        },
    }
}

/// Whether each key comes before all keys behind it, in the order of
/// texts. Such a list holds no key twice.
pub open spec fn strictly_sorted(keys: Seq<String>) -> bool {
    forall|i: int, j: int| 0 <= i < j < keys.len() ==> lex_less(keys[i]@, keys[j]@)
}

/// Whether a list of keys holds a key.
pub open spec fn lists_key(keys: Seq<String>, key: Seq<char>) -> bool {
    exists|i: int| 0 <= i < keys.len() && (#[trigger] keys[i])@ == key
}

/// Whether some entry stands under a key.
pub open spec fn holds_key<T>(entries: Seq<(String, T)>, key: Seq<char>) -> bool {
    exists|i: int| 0 <= i < entries.len() && (#[trigger] entries[i]).0@ == key
}

/// In a sorted list, a key that stands behind another comes after it, so
/// the two differ.
pub proof fn lemma_sorted_keys_differ(keys: Seq<String>, i: int, j: int)
    requires
        strictly_sorted(keys),
        0 <= i < j < keys.len(),
    ensures
        keys[i]@ != keys[j]@,
        !lex_less(keys[j]@, keys[i]@),
{
    lemma_lex_irreflexive(keys[i]@);
    if lex_less(keys[j]@, keys[i]@) {
        lemma_lex_transitive(keys[i]@, keys[j]@, keys[i]@);
    }
}

/// Two sorted lists that hold the same keys agree in their first `upto`
/// keys.
pub proof fn lemma_sorted_lists_agree(a: Seq<String>, b: Seq<String>, upto: int)
    requires
        strictly_sorted(a),
        strictly_sorted(b),
        forall|key: Seq<char>| #[trigger] lists_key(a, key) <==> lists_key(b, key),
        0 <= upto <= a.len(),
        upto <= b.len(),
    ensures
        forall|i: int| 0 <= i < upto ==> a[i]@ == b[i]@,
    decreases upto,
{
    if upto > 0 {
        lemma_sorted_lists_agree(a, b, upto - 1);
        let i = upto - 1;
        assert(lists_key(a, a[i]@));
        assert(lists_key(b, a[i]@));
        assert(lists_key(b, b[i]@));
        assert(lists_key(a, b[i]@));
        let k = choose|k: int| 0 <= k < b.len() && (#[trigger] b[k])@ == a[i]@;
        let m = choose|m: int| 0 <= m < a.len() && (#[trigger] a[m])@ == b[i]@;
        if k < i {
            lemma_sorted_keys_differ(a, k, i);
        } else if m < i {
            lemma_sorted_keys_differ(b, m, i);
        } else if k > i && m > i {
            assert(lex_less(b[i]@, b[k]@));
            assert(lex_less(a[i]@, a[m]@));
            lemma_lex_transitive(b[i]@, a[i]@, b[i]@);
            lemma_lex_irreflexive(b[i]@);
        }
    }
}

/// The sorted list of the keys of a registry is one: two sorted lists
/// that hold the same keys are the same list.
pub proof fn lemma_sorted_list_is_one(a: Seq<String>, b: Seq<String>)
    requires
        strictly_sorted(a),
        strictly_sorted(b),
        forall|key: Seq<char>| #[trigger] lists_key(a, key) <==> lists_key(b, key),
    ensures
        a.len() == b.len(),
        forall|i: int| 0 <= i < a.len() ==> a[i]@ == b[i]@,
{
    let shorter = if a.len() <= b.len() {
        a.len() as int
    } else {
        b.len() as int
    };
    lemma_sorted_lists_agree(a, b, shorter);
    if a.len() > shorter {
        assert(lists_key(a, a[shorter]@));
        assert(lists_key(b, a[shorter]@));
        let k = choose|k: int| 0 <= k < b.len() && (#[trigger] b[k])@ == a[shorter]@;
        lemma_sorted_keys_differ(a, k, shorter);
    }
    if b.len() > shorter {
        assert(lists_key(b, b[shorter]@));
        assert(lists_key(a, b[shorter]@));
        let m = choose|m: int| 0 <= m < a.len() && (#[trigger] a[m])@ == b[shorter]@;
        lemma_sorted_keys_differ(b, m, shorter);
    }
}

/// The last of the merged entries under a key.
pub open spec fn last_under<T>(more: Seq<(String, T)>, key: Seq<char>) -> Option<T>
    decreases more.len(),
{
    if more.len() == 0 {
        None
    } else if more.last().0@ == key {
        Some(more.last().1)
    } else {
        last_under(more.drop_last(), key)
    }
}

/// Putting a value under a key changes what is found under that key and
/// under no other.
pub proof fn lemma_with_entry<T>(entries: Seq<(String, T)>, key: String, value: T, other: Seq<char>)
    ensures
        entry(with_entry(entries, key, value), key@) == Some(value),
        other != key@ ==> entry(with_entry(entries, key, value), other) == entry(entries, other),
{
    let after = with_entry(entries, key, value);
    let at = entry_position(entries, key@);
    lemma_entry_bounds(entries, key@);
    lemma_entry_bounds(entries, other);
    assert forall|i: int| 0 <= i < at implies (#[trigger] after[i]).0@ != key@ by {
        assert(after[i] == entries[i]);
    }
    lemma_entry_position_is(after, key@, at);
    if other != key@ {
        let there = entry_position(entries, other);
        assert forall|i: int| 0 <= i < there implies (#[trigger] after[i]).0@ != other by {
            if i < entries.len() && i != at {
                assert(after[i] == entries[i]);
            }
        }
        if there < entries.len() {
            assert(after[there] == entries[there]);
            lemma_entry_position_is(after, other, there);
        } else {
            lemma_entry_position_is(after, other, after.len() as int);
        }
    }
}

/// The position of a key is within the entries, no entry before it has
/// the key, and the entry there has it.
pub proof fn lemma_entry_bounds<T>(entries: Seq<(String, T)>, key: Seq<char>)
    ensures
        0 <= entry_position(entries, key) <= entries.len(),
        forall|i: int| 0 <= i < entry_position(entries, key) ==> (#[trigger] entries[i]).0@ != key,
        entry_position(entries, key) < entries.len() ==> entries[entry_position(entries, key)].0@
            == key,
    decreases entries.len(),
{
    if entries.len() > 0 && entries[0].0@ != key {
        lemma_entry_bounds(entries.skip(1), key);
        assert forall|i: int| 0 <= i < entry_position(entries, key) implies (
        #[trigger] entries[i]).0@ != key by {
            if i > 0 {
                assert(entries[i] == entries.skip(1)[i - 1]);
            }
        }
    }
}

/// Merge law: after a merge, a key holds what the merged entries hold
/// under it last, and what it held before where they hold nothing under
/// it. The last one merged wins.
pub proof fn lemma_last_merged_wins<T>(
    entries: Seq<(String, T)>,
    more: Seq<(String, T)>,
    key: Seq<char>,
)
    ensures
        entry(merged_entries(entries, more), key) == match last_under(more, key) {
            Some(value) => Some(value),
            None => entry(entries, key),
        },
    decreases more.len(),
{
    if more.len() > 0 {
        lemma_last_merged_wins(entries, more.drop_last(), key);
        lemma_with_entry(
            merged_entries(entries, more.drop_last()),
            more.last().0,
            more.last().1,
            key,
        );
    }
}

/// Puts a key into a sorted list, unless the list holds it already.
fn insert_sorted(keys: &mut Vec<String>, key: String)
    requires
        strictly_sorted(old(keys)@),
    ensures
        strictly_sorted(final(keys)@),
        forall|text: Seq<char>| #[trigger]
            lists_key(final(keys)@, text) <==> (lists_key(old(keys)@, text) || text == key@),
{
    let ghost before = keys@;
    let probe = chars_of(key.as_str());
    let mut at: usize = 0;
    let mut searching = true;
    while searching && at < keys.len()
        invariant
            keys@ == before,
            probe@ == key@,
            at <= keys@.len(),
            forall|i: int| 0 <= i < at ==> lex_less(#[trigger] keys@[i]@, key@),
            !searching ==> at < keys@.len() && !lex_less(keys@[at as int]@, key@),
        decreases keys@.len() - at, if searching { 1int } else { 0int },
    {
        let here = chars_of(keys[at].as_str());
        if lex_lt(&here, &probe) {
            at += 1;
        } else {
            searching = false;
        }
    }
    if at < keys.len() && str_eq(keys[at].as_str(), key.as_str()) {
        assert forall|text: Seq<char>| #[trigger]
            lists_key(keys@, text) <==> (lists_key(before, text) || text == key@) by {
            if text == key@ {
                assert(keys@[at as int]@ == text);
            }
        }
        return;
    }
    keys.insert(at, key);
    proof {
        assert forall|i: int, j: int| 0 <= i < j < keys@.len() implies lex_less(
            keys@[i]@,
            keys@[j]@,
        ) by {
            if j == at {
                assert(keys@[i] == before[i]);
            } else if i == at {
                let next = before[at as int];
                assert(!lex_less(next@, key@));
                lemma_lex_total(next@, key@);
                assert(lex_less(key@, next@));
                if j - 1 > at {
                    assert(lex_less(before[at as int]@, before[j - 1]@));
                    lemma_lex_transitive(key@, next@, before[j - 1]@);
                }
            } else {
                let old_i = if i < at { i } else { i - 1 };
                let old_j = if j < at { j } else { j - 1 };
                assert(keys@[i] == before[old_i]);
                assert(keys@[j] == before[old_j]);
            }
        }
        assert forall|text: Seq<char>| #[trigger]
            lists_key(keys@, text) <==> (lists_key(before, text) || text == key@) by {
            if lists_key(before, text) {
                let i = choose|i: int| 0 <= i < before.len() && (#[trigger] before[i])@ == text;
                let new_i = if i < at { i } else { i + 1 };
                assert(keys@[new_i] == before[i]);
            }
            if text == key@ {
                assert(keys@[at as int]@ == text);
            }
            if lists_key(keys@, text) {
                let i = choose|i: int| 0 <= i < keys@.len() && (#[trigger] keys@[i])@ == text;
                if i != at {
                    let old_i = if i < at { i } else { i - 1 };
                    assert(keys@[i] == before[old_i]);
                }
            }
        }
    }
}

/// The keys of all resources, each once, sorted in the order of texts.
pub fn get_all_resource_keys(registry: &ResourceConfig) -> (keys: Vec<String>)
    ensures
        strictly_sorted(keys@),
        forall|key: Seq<char>| #[trigger]
            lists_key(keys@, key) <==> holds_key(registry.resources@, key),
{
    let mut keys: Vec<String> = Vec::new();
    let mut n: usize = 0;
    while n < registry.resources.len()
        invariant
            n <= registry.resources@.len(),
            strictly_sorted(keys@),
            forall|key: Seq<char>| #[trigger]
                lists_key(keys@, key) <==> holds_key(registry.resources@.take(n as int), key),
        decreases registry.resources@.len() - n,
    {
        let ghost before = keys@;
        let ghost seen = registry.resources@.take(n as int);
        let ghost more = registry.resources@.take(n + 1);
        let name = registry.resources[n].0.clone();
        insert_sorted(&mut keys, name);
        proof {
            assert forall|key: Seq<char>| #[trigger]
                lists_key(keys@, key) <==> holds_key(more, key) by {
                assert(lists_key(keys@, key) <==> (lists_key(before, key) || key == name@));
                assert(lists_key(before, key) <==> holds_key(seen, key));
                if holds_key(seen, key) {
                    let i = choose|i: int| 0 <= i < seen.len() && (#[trigger] seen[i]).0@ == key;
                    assert(more[i] == seen[i]);
                }
                if key == name@ {
                    assert(more[n as int].0@ == key);
                }
                if holds_key(more, key) {
                    let i = choose|i: int| 0 <= i < more.len() && (#[trigger] more[i]).0@ == key;
                    if i < n {
                        assert(seen[i] == more[i]);
                    }
                }
            }
        }
        n += 1;
    }
    assert(registry.resources@.take(n as int) =~= registry.resources@);
    keys
}

} // verus!
