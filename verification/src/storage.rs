//! Storing a catalog as a document, and reading it back.
//!
//! The document is an object with the members `tag_db`, `weapons` and
//! `systems`, each an array of objects, one per entry, with one member per
//! field under the field's name. An enumeration is stored as the name of its
//! member, a limit that a system does not have as `null`.
//!
//! Reading is lenient where a member is absent, and takes the field's default
//! for it, and where a member is not known, and passes it over. It is strict
//! where a member holds a value of the wrong kind: then nothing is read.

use vstd::prelude::*;
use crate::app_data::systems::{System, SystemView};
use crate::app_data::tags::{Tag, TagView};
use crate::app_data::weapons::{Weapon, WeaponClass, WeaponTargeting, WeaponView};
use crate::app_data::{AppData, CatalogView};
use crate::document::{
    each_read,
    find_member,
    lemma_array_view,
    lemma_member_found,
    lemma_object_view,
    lemma_texts_round_trip,
    lemma_member_missing,
    lemma_other_member_ignored,
    load_number,
    load_optional_number,
    load_text,
    load_texts,
    member,
    member_named,
    number_field,
    optional_number_field,
    stored_optional_number,
    stored_texts,
    text_field,
    texts_field,
    Json,
    JsonView,
    Member,
    MemberView,
};

verus! {

/// A tag as the document holds it.
pub open spec fn tag_document(tag: TagView) -> JsonView {
    JsonView::Object(
        seq![
            member("name"@, JsonView::Str(tag.name)),
            member("fluff"@, JsonView::Str(tag.fluff)),
        ],
    )
}

/// A weapon as the document holds it.
pub open spec fn weapon_document(weapon: WeaponView) -> JsonView {
    JsonView::Object(
        seq![
            member("name"@, JsonView::Str(weapon.name)),
            member("fluff"@, JsonView::Str(weapon.fluff)),
            member("cost"@, JsonView::Int(weapon.cost as i64)),
            member("class"@, JsonView::Str(weapon.class.display())),
            member("targeting"@, JsonView::Str(weapon.targeting.display())),
            member("tags"@, stored_texts(weapon.tags)),
            member("range_min"@, JsonView::Int(weapon.range_min as i64)),
            member("range_max"@, JsonView::Int(weapon.range_max as i64)),
            member("damage"@, JsonView::Str(weapon.damage)),
            member("rules"@, JsonView::Str(weapon.rules)),
        ],
    )
}

/// A system as the document holds it.
pub open spec fn system_document(system: SystemView) -> JsonView {
    JsonView::Object(
        seq![
            member("name"@, JsonView::Str(system.name)),
            member("fluff"@, JsonView::Str(system.fluff)),
            member("cost"@, JsonView::Int(system.cost as i64)),
            member("limited"@, stored_optional_number(system.limited)),
            member("tags"@, stored_texts(system.tags)),
            member("rules"@, JsonView::Str(system.rules)),
        ],
    )
}

/// A dictionary as the document holds it: its entries in their order.
pub open spec fn tag_documents(tags: Seq<TagView>) -> Seq<JsonView> {
    tags.map_values(|tag: TagView| tag_document(tag))
}

/// The weapons as the document holds them, in their order.
pub open spec fn weapon_documents(weapons: Seq<WeaponView>) -> Seq<JsonView> {
    weapons.map_values(|weapon: WeaponView| weapon_document(weapon))
}

/// The systems as the document holds them, in their order.
pub open spec fn system_documents(systems: Seq<SystemView>) -> Seq<JsonView> {
    systems.map_values(|system: SystemView| system_document(system))
}

/// The document of a catalog.
pub open spec fn catalog_document(catalog: CatalogView) -> JsonView {
    JsonView::Object(
        seq![
            member("tag_db"@, JsonView::Array(tag_documents(catalog.tag_db))),
            member("weapons"@, JsonView::Array(weapon_documents(catalog.weapons))),
            member("systems"@, JsonView::Array(system_documents(catalog.systems))),
        ],
    )
}

/// A weapon class of an object: absent it is the default, and nothing but the
/// name of a member will do.
pub open spec fn class_field(members: Seq<MemberView>, key: Seq<char>) -> Option<WeaponClass> {
    match member_named(members, key) {
        None => Some(WeaponClass::Primary),
        Some(JsonView::Str(name)) => WeaponClass::parsed(name),
        Some(_) => None,
    }
}

/// A targeting of an object: absent it is the default, and nothing but the
/// name of a member will do.
pub open spec fn targeting_field(members: Seq<MemberView>, key: Seq<char>) -> Option<
    WeaponTargeting,
> {
    match member_named(members, key) {
        None => Some(WeaponTargeting::SingleTarget),
        Some(JsonView::Str(name)) => WeaponTargeting::parsed(name),
        Some(_) => None,
    }
}

/// The tag that a value of the document stands for, if it stands for one.
pub open spec fn read_tag(doc: JsonView) -> Option<TagView> {
    match doc {
        JsonView::Object(members) => {
            let name = text_field(members, "name"@);
            let fluff = text_field(members, "fluff"@);
            if name is Some && fluff is Some {
                Some(TagView { name: name->0, fluff: fluff->0 })
            } else {
                None
            }
        },
        _ => None,
    }
}

/// The weapon that a value of the document stands for, if it stands for one.
pub open spec fn read_weapon(doc: JsonView) -> Option<WeaponView> {
    match doc {
        JsonView::Object(members) => {
            let name = text_field(members, "name"@);
            let fluff = text_field(members, "fluff"@);
            let cost = number_field(members, "cost"@);
            let class = class_field(members, "class"@);
            let targeting = targeting_field(members, "targeting"@);
            let tags = texts_field(members, "tags"@);
            let range_min = number_field(members, "range_min"@);
            let range_max = number_field(members, "range_max"@);
            let damage = text_field(members, "damage"@);
            let rules = text_field(members, "rules"@);
            if name is Some && fluff is Some && cost is Some && class is Some && targeting is Some
                && tags is Some && range_min is Some && range_max is Some && damage is Some
                && rules is Some {
                Some(
                    WeaponView {
                        name: name->0,
                        fluff: fluff->0,
                        cost: cost->0,
                        class: class->0,
                        targeting: targeting->0,
                        tags: tags->0,
                        range_min: range_min->0,
                        range_max: range_max->0,
                        damage: damage->0,
                        rules: rules->0,
                    },
                )
            } else {
                None
            }
        },
        _ => None,
    }
}

/// The system that a value of the document stands for, if it stands for one.
pub open spec fn read_system(doc: JsonView) -> Option<SystemView> {
    match doc {
        JsonView::Object(members) => {
            let name = text_field(members, "name"@);
            let fluff = text_field(members, "fluff"@);
            let cost = number_field(members, "cost"@);
            let limited = optional_number_field(members, "limited"@);
            let tags = texts_field(members, "tags"@);
            let rules = text_field(members, "rules"@);
            if name is Some && fluff is Some && cost is Some && limited is Some && tags is Some
                && rules is Some {
                Some(
                    SystemView {
                        name: name->0,
                        fluff: fluff->0,
                        cost: cost->0,
                        limited: limited->0,
                        tags: tags->0,
                        rules: rules->0,
                    },
                )
            } else {
                None
            }
        },
        _ => None,
    }
}

/// The tags that an array holds, if each of its items stands for one.
pub open spec fn read_tags(items: Seq<JsonView>) -> Option<Seq<TagView>> {
    each_read(items, |item: JsonView| read_tag(item))
}

/// The weapons that an array holds, if each of its items stands for one.
pub open spec fn read_weapons(items: Seq<JsonView>) -> Option<Seq<WeaponView>> {
    each_read(items, |item: JsonView| read_weapon(item))
}

/// The systems that an array holds, if each of its items stands for one.
pub open spec fn read_systems(items: Seq<JsonView>) -> Option<Seq<SystemView>> {
    each_read(items, |item: JsonView| read_system(item))
}

/// A list of an object: absent it is empty, and nothing but an array will do.
pub open spec fn items_field(members: Seq<MemberView>, key: Seq<char>) -> Option<Seq<JsonView>> {
    match member_named(members, key) {
        None => Some(Seq::empty()),
        Some(JsonView::Array(items)) => Some(items),
        Some(_) => None,
    }
}

/// The catalog that a document stands for, if it stands for one.
pub open spec fn read_catalog(doc: JsonView) -> Option<CatalogView> {
    match doc {
        JsonView::Object(members) => {
            let tag_db = match items_field(members, "tag_db"@) {
                Some(items) => read_tags(items),
                None => None,
            };
            let weapons = match items_field(members, "weapons"@) {
                Some(items) => read_weapons(items),
                None => None,
            };
            let systems = match items_field(members, "systems"@) {
                Some(items) => read_systems(items),
                None => None,
            };
            if tag_db is Some && weapons is Some && systems is Some {
                Some(CatalogView { tag_db: tag_db->0, weapons: weapons->0, systems: systems->0 })
            } else {
                None
            }
        },
        _ => None,
    }
}

/// Reads a weapon class of an object.
pub fn load_class(members: &Vec<Member>, key: &str) -> (class: Option<WeaponClass>)
    ensures
        class == class_field(members.deep_view(), key@),
{
    match find_member(members, key) {
        None => Some(WeaponClass::Primary),
        Some(Json::Str(name)) => WeaponClass::parse(name.as_str()),
        Some(_) => None,
    }
}

/// Reads a targeting of an object.
pub fn load_targeting(members: &Vec<Member>, key: &str) -> (targeting: Option<WeaponTargeting>)
    ensures
        targeting == targeting_field(members.deep_view(), key@),
{
    match find_member(members, key) {
        None => Some(WeaponTargeting::SingleTarget),
        Some(Json::Str(name)) => WeaponTargeting::parse(name.as_str()),
        Some(_) => None,
    }
}

/// Reads a list of an object, still as values of the document.
pub fn load_items<'a>(members: &'a Vec<Member>, key: &str) -> (items: Option<&'a [Json]>)
    ensures
        items.deep_view() == items_field(members.deep_view(), key@),
{
    match find_member(members, key) {
        None => {
            let none: &[Json] = &[];
            assert(none.deep_view() =~= Seq::<JsonView>::empty());
            Some(none)
        },
        Some(Json::Array(items)) => {
            proof {
                lemma_array_view(*items);
            }
            let items = items.as_slice();
            assert(items.deep_view() =~= items@.map_values(|item: Json| item.deep_view()));
            Some(items)
        },
        Some(_) => None,
    }
}

impl Tag {
    /// The tag as the document holds it.
    pub fn save(&self) -> (doc: Json)
        ensures
            doc.deep_view() == tag_document(self@),
    {
        let mut members: Vec<Member> = Vec::new();
        members.push(Member::text("name", &self.name));
        members.push(Member::text("fluff", &self.fluff));
        proof {
            lemma_object_view(members);
            assert(members.deep_view() =~= tag_document(self@)->Object_0);
        }
        Json::Object(members)
    }

    /// Reads a tag from a value of the document.
    pub fn load(doc: &Json) -> (tag: Option<Tag>)
        ensures
            tag.deep_view() == read_tag(doc.deep_view()),
    {
        match doc {
            Json::Object(members) => {
                proof {
                    lemma_object_view(*members);
                }
                let name = match load_text(members, "name") {
                    Some(text) => text,
                    None => {
                        return None;
                    },
                };
                let fluff = match load_text(members, "fluff") {
                    Some(text) => text,
                    None => {
                        return None;
                    },
                };
                Some(Tag { name, fluff })
            },
            _ => None,
        }
    }
}

impl Weapon {
    /// The weapon as the document holds it.
    pub fn save(&self) -> (doc: Json)
        ensures
            doc.deep_view() == weapon_document(self@),
    {
        let mut members: Vec<Member> = Vec::new();
        members.push(Member::text("name", &self.name));
        members.push(Member::text("fluff", &self.fluff));
        members.push(Member::number("cost", self.cost));
        members.push(Member::text("class", &self.class.to_string()));
        members.push(Member::text("targeting", &self.targeting.to_string()));
        members.push(Member::texts("tags", &self.tags));
        members.push(Member::number("range_min", self.range_min));
        members.push(Member::number("range_max", self.range_max));
        members.push(Member::text("damage", &self.damage));
        members.push(Member::text("rules", &self.rules));
        proof {
            lemma_object_view(members);
            assert(members.deep_view() =~= weapon_document(self@)->Object_0);
        }
        Json::Object(members)
    }

    /// Reads a weapon from a value of the document.
    pub fn load(doc: &Json) -> (weapon: Option<Weapon>)
        ensures
            weapon.deep_view() == read_weapon(doc.deep_view()),
    {
        match doc {
            Json::Object(members) => {
                proof {
                    lemma_object_view(*members);
                }
                let name = match load_text(members, "name") {
                    Some(text) => text,
                    None => {
                        return None;
                    },
                };
                let fluff = match load_text(members, "fluff") {
                    Some(text) => text,
                    None => {
                        return None;
                    },
                };
                let cost = match load_number(members, "cost") {
                    Some(number) => number,
                    None => {
                        return None;
                    },
                };
                let class = match load_class(members, "class") {
                    Some(member) => member,
                    None => {
                        return None;
                    },
                };
                let targeting = match load_targeting(members, "targeting") {
                    Some(member) => member,
                    None => {
                        return None;
                    },
                };
                let tags = match load_texts(members, "tags") {
                    Some(texts) => texts,
                    None => {
                        return None;
                    },
                };
                let range_min = match load_number(members, "range_min") {
                    Some(number) => number,
                    None => {
                        return None;
                    },
                };
                let range_max = match load_number(members, "range_max") {
                    Some(number) => number,
                    None => {
                        return None;
                    },
                };
                let damage = match load_text(members, "damage") {
                    Some(text) => text,
                    None => {
                        return None;
                    },
                };
                let rules = match load_text(members, "rules") {
                    Some(text) => text,
                    None => {
                        return None;
                    },
                };
                Some(
                    Weapon {
                        name,
                        fluff,
                        cost,
                        class,
                        targeting,
                        tags,
                        range_min,
                        range_max,
                        damage,
                        rules,
                    },
                )
            },
            _ => None,
        }
    }
}

impl System {
    /// The system as the document holds it.
    pub fn save(&self) -> (doc: Json)
        ensures
            doc.deep_view() == system_document(self@),
    {
        let mut members: Vec<Member> = Vec::new();
        members.push(Member::text("name", &self.name));
        members.push(Member::text("fluff", &self.fluff));
        members.push(Member::number("cost", self.cost));
        members.push(Member::optional_number("limited", self.limited));
        members.push(Member::texts("tags", &self.tags));
        members.push(Member::text("rules", &self.rules));
        proof {
            lemma_object_view(members);
            assert(members.deep_view() =~= system_document(self@)->Object_0);
        }
        Json::Object(members)
    }

    /// Reads a system from a value of the document.
    pub fn load(doc: &Json) -> (system: Option<System>)
        ensures
            system.deep_view() == read_system(doc.deep_view()),
    {
        match doc {
            Json::Object(members) => {
                proof {
                    lemma_object_view(*members);
                }
                let name = match load_text(members, "name") {
                    Some(text) => text,
                    None => {
                        return None;
                    },
                };
                let fluff = match load_text(members, "fluff") {
                    Some(text) => text,
                    None => {
                        return None;
                    },
                };
                let cost = match load_number(members, "cost") {
                    Some(number) => number,
                    None => {
                        return None;
                    },
                };
                let limited = match load_optional_number(members, "limited") {
                    Some(number) => number,
                    None => {
                        return None;
                    },
                };
                let tags = match load_texts(members, "tags") {
                    Some(texts) => texts,
                    None => {
                        return None;
                    },
                };
                let rules = match load_text(members, "rules") {
                    Some(text) => text,
                    None => {
                        return None;
                    },
                };
                Some(System { name, fluff, cost, limited, tags, rules })
            },
            _ => None,
        }
    }
}

/// The entries of a dictionary as the document holds them.
pub fn save_tags(tags: &Vec<Tag>) -> (items: Vec<Json>)
    ensures
        items.deep_view() == tag_documents(tags.deep_view()),
{
    let mut items: Vec<Json> = Vec::new();
    let n: usize = tags.len();
    let mut at: usize = 0;
    while at < n
        invariant
            at <= n,
            n == tags.len(),
            items.len() == at,
            forall|k: int|
                0 <= k < at ==> (#[trigger] items[k]).deep_view() == tag_document(tags[k]@),
        decreases n - at,
    {
        items.push(tags[at].save());
        at = at + 1;
    }
    assert(items.deep_view() =~= tag_documents(tags.deep_view()));
    items
}

/// The weapons as the document holds them.
pub fn save_weapons(weapons: &Vec<Weapon>) -> (items: Vec<Json>)
    ensures
        items.deep_view() == weapon_documents(weapons.deep_view()),
{
    let mut items: Vec<Json> = Vec::new();
    let n: usize = weapons.len();
    let mut at: usize = 0;
    while at < n
        invariant
            at <= n,
            n == weapons.len(),
            items.len() == at,
            forall|k: int|
                0 <= k < at ==> (#[trigger] items[k]).deep_view() == weapon_document(weapons[k]@),
        decreases n - at,
    {
        items.push(weapons[at].save());
        at = at + 1;
    }
    assert(items.deep_view() =~= weapon_documents(weapons.deep_view()));
    items
}

/// The systems as the document holds them.
pub fn save_systems(systems: &Vec<System>) -> (items: Vec<Json>)
    ensures
        items.deep_view() == system_documents(systems.deep_view()),
{
    let mut items: Vec<Json> = Vec::new();
    let n: usize = systems.len();
    let mut at: usize = 0;
    while at < n
        invariant
            at <= n,
            n == systems.len(),
            items.len() == at,
            forall|k: int|
                0 <= k < at ==> (#[trigger] items[k]).deep_view() == system_document(systems[k]@),
        decreases n - at,
    {
        items.push(systems[at].save());
        at = at + 1;
    }
    assert(items.deep_view() =~= system_documents(systems.deep_view()));
    items
}

/// Reads the entries of a dictionary from the items of an array.
pub fn load_tags(items: &[Json]) -> (tags: Option<Vec<Tag>>)
    ensures
        tags.deep_view() == read_tags(items.deep_view()),
{
    let mut tags: Vec<Tag> = Vec::new();
    let n: usize = items.len();
    let mut at: usize = 0;
    while at < n
        invariant
            at <= n,
            n == items.len(),
            tags.len() == at,
            forall|k: int|
                0 <= k < at ==> read_tag(#[trigger] items.deep_view()[k]) == Some(tags[k]@),
        decreases n - at,
    {
        match Tag::load(&items[at]) {
            Some(tag) => {
                tags.push(tag);
            },
            None => {
                assert(read_tag(items.deep_view()[at as int]) is None);
                return None;
            },
        }
        at = at + 1;
    }
    assert(tags.deep_view() =~= read_tags(items.deep_view())->0);
    Some(tags)
}

/// Reads the weapons from the items of an array.
pub fn load_weapons(items: &[Json]) -> (weapons: Option<Vec<Weapon>>)
    ensures
        weapons.deep_view() == read_weapons(items.deep_view()),
{
    let mut weapons: Vec<Weapon> = Vec::new();
    let n: usize = items.len();
    let mut at: usize = 0;
    while at < n
        invariant
            at <= n,
            n == items.len(),
            weapons.len() == at,
            forall|k: int|
                0 <= k < at ==> read_weapon(#[trigger] items.deep_view()[k]) == Some(weapons[k]@),
        decreases n - at,
    {
        match Weapon::load(&items[at]) {
            Some(weapon) => {
                weapons.push(weapon);
            },
            None => {
                assert(read_weapon(items.deep_view()[at as int]) is None);
                return None;
            },
        }
        at = at + 1;
    }
    assert(weapons.deep_view() =~= read_weapons(items.deep_view())->0);
    Some(weapons)
}

/// Reads the systems from the items of an array.
pub fn load_systems(items: &[Json]) -> (systems: Option<Vec<System>>)
    ensures
        systems.deep_view() == read_systems(items.deep_view()),
{
    let mut systems: Vec<System> = Vec::new();
    let n: usize = items.len();
    let mut at: usize = 0;
    while at < n
        invariant
            at <= n,
            n == items.len(),
            systems.len() == at,
            forall|k: int|
                0 <= k < at ==> read_system(#[trigger] items.deep_view()[k]) == Some(systems[k]@),
        decreases n - at,
    {
        match System::load(&items[at]) {
            Some(system) => {
                systems.push(system);
            },
            None => {
                assert(read_system(items.deep_view()[at as int]) is None);
                return None;
            },
        }
        at = at + 1;
    }
    assert(systems.deep_view() =~= read_systems(items.deep_view())->0);
    Some(systems)
}

impl AppData {
    /// The document of the catalog.
    pub fn save(&self) -> (doc: Json)
        ensures
            doc.deep_view() == catalog_document(self@),
    {
        let mut members: Vec<Member> = Vec::new();
        members.push(Member::array("tag_db", save_tags(&self.tag_db)));
        members.push(Member::array("weapons", save_weapons(&self.weapons)));
        members.push(Member::array("systems", save_systems(&self.systems)));
        proof {
            lemma_object_view(members);
            assert(members.deep_view() =~= catalog_document(self@)->Object_0);
        }
        Json::Object(members)
    }

    /// Reads a catalog from its document. `None` where the document does not
    /// stand for a catalog.
    pub fn load(doc: &Json) -> (catalog: Option<AppData>)
        ensures
            catalog.deep_view() == read_catalog(doc.deep_view()),
    {
        match doc {
            Json::Object(members) => {
                proof {
                    lemma_object_view(*members);
                }
                let tag_db = match load_items(members, "tag_db") {
                    Some(items) => match load_tags(items) {
                        Some(tags) => tags,
                        None => {
                            return None;
                        },
                    },
                    None => {
                        return None;
                    },
                };
                let weapons = match load_items(members, "weapons") {
                    Some(items) => match load_weapons(items) {
                        Some(weapons) => weapons,
                        None => {
                            return None;
                        },
                    },
                    None => {
                        return None;
                    },
                };
                let systems = match load_items(members, "systems") {
                    Some(items) => match load_systems(items) {
                        Some(systems) => systems,
                        None => {
                            return None;
                        },
                    },
                    None => {
                        return None;
                    },
                };
                Some(AppData { tag_db, weapons, systems })
            },
            _ => None,
        }
    }

    /// The catalog that a session starts from: the one that the stored
    /// document stands for, or the empty catalog where no document was found
    /// or the one found does not stand for a catalog.
    pub fn restore(stored: Option<&Json>) -> (catalog: AppData)
        ensures
            catalog@ == restored(stored.deep_view()),
    {
        match stored {
            Some(doc) => match AppData::load(doc) {
                Some(catalog) => catalog,
                None => AppData::default(),
            },
            None => AppData::default(),
        }
    }
}

/// The catalog that a session starts from, given what was found in storage.
pub open spec fn restored(stored: Option<JsonView>) -> CatalogView {
    match stored {
        Some(doc) => match read_catalog(doc) {
            Some(catalog) => catalog,
            None => crate::app_data::empty_catalog(),
        },
        None => crate::app_data::empty_catalog(),
    }
}

/// The names of the members: how long each is and how it begins, which tells
/// any two of them apart.
proof fn lemma_member_names()
    ensures
        "name"@.len() == 4,
        "name"@[0] == 'n',
        "fluff"@.len() == 5,
        "fluff"@[0] == 'f',
        "cost"@.len() == 4,
        "cost"@[0] == 'c',
        "class"@.len() == 5,
        "class"@[0] == 'c',
        "targeting"@.len() == 9,
        "targeting"@[0] == 't',
        "tags"@.len() == 4,
        "tags"@[0] == 't',
        "range_min"@.len() == 9,
        "range_min"@[0] == 'r',
        "range_max"@.len() == 9,
        "range_max"@[0] == 'r',
        "damage"@.len() == 6,
        "damage"@[0] == 'd',
        "rules"@.len() == 5,
        "rules"@[0] == 'r',
        "limited"@.len() == 7,
        "limited"@[0] == 'l',
        "tag_db"@.len() == 6,
        "tag_db"@[0] == 't',
        "weapons"@.len() == 7,
        "weapons"@[0] == 'w',
        "systems"@.len() == 7,
        "systems"@[0] == 's',
        "range_min"@[7] == 'i',
        "range_max"@[7] == 'a',
{
    reveal_strlit("name");
    reveal_strlit("fluff");
    reveal_strlit("cost");
    reveal_strlit("class");
    reveal_strlit("targeting");
    reveal_strlit("tags");
    reveal_strlit("range_min");
    reveal_strlit("range_max");
    reveal_strlit("damage");
    reveal_strlit("rules");
    reveal_strlit("limited");
    reveal_strlit("tag_db");
    reveal_strlit("weapons");
    reveal_strlit("systems");
}

/// A tag is read back from its document as it was.
pub proof fn lemma_tag_round_trip(tag: TagView)
    ensures
        read_tag(tag_document(tag)) == Some(tag),
{
    lemma_member_names();
    let members = tag_document(tag)->Object_0;
    lemma_member_found(members, "name"@, 0);
    lemma_member_found(members, "fluff"@, 1);
}

/// A weapon is read back from its document as it was.
pub proof fn lemma_weapon_round_trip(weapon: WeaponView)
    ensures
        read_weapon(weapon_document(weapon)) == Some(weapon),
{
    lemma_member_names();
    let members = weapon_document(weapon)->Object_0;
    lemma_member_found(members, "name"@, 0);
    lemma_member_found(members, "fluff"@, 1);
    lemma_member_found(members, "cost"@, 2);
    lemma_member_found(members, "class"@, 3);
    lemma_member_found(members, "targeting"@, 4);
    lemma_member_found(members, "tags"@, 5);
    lemma_member_found(members, "range_min"@, 6);
    lemma_member_found(members, "range_max"@, 7);
    lemma_member_found(members, "damage"@, 8);
    lemma_member_found(members, "rules"@, 9);
    WeaponClass::lemma_parse_display(weapon.class);
    WeaponTargeting::lemma_parse_display(weapon.targeting);
    lemma_texts_round_trip(weapon.tags);
}

/// A system is read back from its document as it was.
pub proof fn lemma_system_round_trip(system: SystemView)
    ensures
        read_system(system_document(system)) == Some(system),
{
    lemma_member_names();
    let members = system_document(system)->Object_0;
    lemma_member_found(members, "name"@, 0);
    lemma_member_found(members, "fluff"@, 1);
    lemma_member_found(members, "cost"@, 2);
    lemma_member_found(members, "limited"@, 3);
    lemma_member_found(members, "tags"@, 4);
    lemma_member_found(members, "rules"@, 5);
    lemma_texts_round_trip(system.tags);
}

/// A catalog is read back from its document as it was: every entry of the
/// dictionary, every weapon and every system, each in its place, with its
/// references in their order.
pub proof fn lemma_catalog_round_trip(catalog: CatalogView)
    ensures
        read_catalog(catalog_document(catalog)) == Some(catalog),
{
    lemma_member_names();
    let members = catalog_document(catalog)->Object_0;
    lemma_member_found(members, "tag_db"@, 0);
    lemma_member_found(members, "weapons"@, 1);
    lemma_member_found(members, "systems"@, 2);
    let tags = tag_documents(catalog.tag_db);
    let weapons = weapon_documents(catalog.weapons);
    let systems = system_documents(catalog.systems);
    assert forall|at: int| 0 <= at < tags.len() implies read_tag(#[trigger] tags[at]) == Some(
        catalog.tag_db[at],
    ) by {
        lemma_tag_round_trip(catalog.tag_db[at]);
    }
    assert forall|at: int| 0 <= at < weapons.len() implies read_weapon(#[trigger] weapons[at])
        == Some(catalog.weapons[at]) by {
        lemma_weapon_round_trip(catalog.weapons[at]);
    }
    assert forall|at: int| 0 <= at < systems.len() implies read_system(#[trigger] systems[at])
        == Some(catalog.systems[at]) by {
        lemma_system_round_trip(catalog.systems[at]);
    }
    assert(read_tags(tags)->0 =~= catalog.tag_db);
    assert(read_weapons(weapons)->0 =~= catalog.weapons);
    assert(read_systems(systems)->0 =~= catalog.systems);
}

/// Reading a document that was written from a catalog keeps every sequence in
/// its order: the entries of the dictionary, the weapons, the systems, and the
/// references of each weapon and system.
pub proof fn lemma_round_trip_keeps_order(catalog: CatalogView)
    ensures
        read_catalog(catalog_document(catalog)) matches Some(read) && {
            &&& read.tag_db.len() == catalog.tag_db.len()
            &&& forall|at: int|
                0 <= at < catalog.tag_db.len() ==> #[trigger] read.tag_db[at] == catalog.tag_db[at]
            &&& read.weapons.len() == catalog.weapons.len()
            &&& forall|at: int|
                0 <= at < catalog.weapons.len() ==> #[trigger] read.weapons[at]
                    == catalog.weapons[at]
            &&& forall|at: int, slot: int|
                0 <= at < catalog.weapons.len() && 0 <= slot < catalog.weapons[at].tags.len()
                    ==> #[trigger] read.weapons[at].tags[slot] == catalog.weapons[at].tags[slot]
            &&& read.systems.len() == catalog.systems.len()
            &&& forall|at: int|
                0 <= at < catalog.systems.len() ==> #[trigger] read.systems[at]
                    == catalog.systems[at]
            &&& forall|at: int, slot: int|
                0 <= at < catalog.systems.len() && 0 <= slot < catalog.systems[at].tags.len()
                    ==> #[trigger] read.systems[at].tags[slot] == catalog.systems[at].tags[slot]
        },
{
    lemma_catalog_round_trip(catalog);
}

/// A field whose member is absent from an object takes its default: the empty
/// text, zero, no limit, no references, a primary weapon, a single target, an
/// empty list.
pub proof fn lemma_absent_member_default(members: Seq<MemberView>, key: Seq<char>)
    requires
        forall|at: int| 0 <= at < members.len() ==> (#[trigger] members[at]).key != key,
    ensures
        text_field(members, key) == Some(Seq::<char>::empty()),
        number_field(members, key) == Some(0i32),
        optional_number_field(members, key) == Some(None::<i32>),
        texts_field(members, key) == Some(Seq::<Seq<char>>::empty()),
        class_field(members, key) == Some(WeaponClass::Primary),
        targeting_field(members, key) == Some(WeaponTargeting::SingleTarget),
        items_field(members, key) == Some(Seq::<JsonView>::empty()),
{
    lemma_member_missing(members, key);
}

/// An object without members is read as the default tag, weapon or system, or
/// as the empty catalog.
pub proof fn lemma_absent_members_default()
    ensures
        read_tag(JsonView::Object(Seq::empty())) == Some(crate::app_data::tags::default_tag()),
        read_weapon(JsonView::Object(Seq::empty())) == Some(
            crate::app_data::weapons::default_weapon(),
        ),
        read_system(JsonView::Object(Seq::empty())) == Some(
            crate::app_data::systems::default_system(),
        ),
        read_catalog(JsonView::Object(Seq::empty())) == Some(crate::app_data::empty_catalog()),
{
    assert(read_tags(Seq::empty())->0 =~= Seq::<TagView>::empty());
    assert(read_weapons(Seq::empty())->0 =~= Seq::<WeaponView>::empty());
    assert(read_systems(Seq::empty())->0 =~= Seq::<SystemView>::empty());
}

/// Whether a member's name is none of those that an entry of the catalog, or
/// the catalog itself, is read from.
pub open spec fn unknown_name(key: Seq<char>) -> bool {
    &&& key != "name"@
    &&& key != "fluff"@
    &&& key != "cost"@
    &&& key != "class"@
    &&& key != "targeting"@
    &&& key != "tags"@
    &&& key != "range_min"@
    &&& key != "range_max"@
    &&& key != "damage"@
    &&& key != "rules"@
    &&& key != "limited"@
    &&& key != "tag_db"@
    &&& key != "weapons"@
    &&& key != "systems"@
}

/// A member of an unknown name is passed over: an object is read as it is read
/// without that member, wherever the member stands in it.
pub proof fn lemma_unknown_member_ignored(members: Seq<MemberView>, at: int, other: MemberView)
    requires
        0 <= at <= members.len(),
        unknown_name(other.key),
    ensures
        read_tag(JsonView::Object(members.insert(at, other))) == read_tag(
            JsonView::Object(members),
        ),
        read_weapon(JsonView::Object(members.insert(at, other))) == read_weapon(
            JsonView::Object(members),
        ),
        read_system(JsonView::Object(members.insert(at, other))) == read_system(
            JsonView::Object(members),
        ),
        read_catalog(JsonView::Object(members.insert(at, other))) == read_catalog(
            JsonView::Object(members),
        ),
{
    lemma_other_member_ignored(members, at, other, "name"@);
    lemma_other_member_ignored(members, at, other, "fluff"@);
    lemma_other_member_ignored(members, at, other, "cost"@);
    lemma_other_member_ignored(members, at, other, "class"@);
    lemma_other_member_ignored(members, at, other, "targeting"@);
    lemma_other_member_ignored(members, at, other, "tags"@);
    lemma_other_member_ignored(members, at, other, "range_min"@);
    lemma_other_member_ignored(members, at, other, "range_max"@);
    lemma_other_member_ignored(members, at, other, "damage"@);
    lemma_other_member_ignored(members, at, other, "rules"@);
    lemma_other_member_ignored(members, at, other, "limited"@);
    lemma_other_member_ignored(members, at, other, "tag_db"@);
    lemma_other_member_ignored(members, at, other, "weapons"@);
    lemma_other_member_ignored(members, at, other, "systems"@);
}

} // verus!
