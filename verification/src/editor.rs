//! The editor session: one pass over the whole catalog.
//!
//! A pass shows the dictionary, then the weapons, then the systems. What the
//! user did in it arrives as a [`FrameEdits`]; the pass applies it in the
//! order in which the widgets stand. An entry that is to leave a sequence is
//! recorded while the sequence is gone through and removed after, one entry
//! per sequence and pass.

use vstd::prelude::*;
use crate::app_data::lookup::{
    last_named,
    lemma_last_named,
    lemma_lookup_view,
    resolves,
    TagLookup,
};
use crate::app_data::order::{sort_by_name, sort_tags};
use crate::app_data::systems::{
    default_system,
    no_system_edits,
    system_after,
    System,
    SystemEdits,
    SystemEditsView,
    SystemView,
};
use crate::app_data::tags::{
    default_tag,
    last_marked,
    lemma_last_marked,
    lemma_selectors_untouched,
    no_tag_edits,
    tag_after,
    Tag,
    TagEdits,
    TagEditsView,
    TagView,
};
use crate::app_data::weapons::{
    default_weapon,
    no_weapon_edits,
    weapon_after,
    Weapon,
    WeaponEdits,
    WeaponEditsView,
    WeaponView,
};
use crate::app_data::{AppData, CatalogView};

verus! {

/// What the user did during one pass over the catalog.
#[derive(Debug)]
pub struct FrameEdits {
    /// Whether "Add tag" was pressed.
    pub add_tag: bool,
    /// Whether "Sort" was pressed.
    pub sort_tags: bool,
    /// One record for each entry of the dictionary, in the order in which the
    /// entries were shown: that after "Add tag" and "Sort".
    pub tags: Vec<TagEdits>,
    /// Whether "Add weapon" was pressed.
    pub add_weapon: bool,
    /// One record for each weapon, the added one last.
    pub weapons: Vec<WeaponEdits>,
    /// Whether "Add system" was pressed.
    pub add_system: bool,
    /// One record for each system, the added one last.
    pub systems: Vec<SystemEdits>,
}

/// The edits of one pass over the catalog, as plain values.
pub ghost struct FrameEditsView {
    pub add_tag: bool,
    pub sort_tags: bool,
    pub tags: Seq<TagEditsView>,
    pub add_weapon: bool,
    pub weapons: Seq<WeaponEditsView>,
    pub add_system: bool,
    pub systems: Seq<SystemEditsView>,
}

impl View for FrameEdits {
    type V = FrameEditsView;

    open spec fn view(&self) -> FrameEditsView {
        FrameEditsView {
            add_tag: self.add_tag,
            sort_tags: self.sort_tags,
            tags: self.tags.deep_view(),
            add_weapon: self.add_weapon,
            weapons: self.weapons.deep_view(),
            add_system: self.add_system,
            systems: self.systems.deep_view(),
        }
    }
}

/// The pass in which nothing was touched.
pub open spec fn no_edits() -> FrameEditsView {
    FrameEditsView {
        add_tag: false,
        sort_tags: false,
        tags: Seq::empty(),
        add_weapon: false,
        weapons: Seq::empty(),
        add_system: false,
        systems: Seq::empty(),
    }
}

impl Default for FrameEdits {
    fn default() -> (edits: FrameEdits)
        ensures
            edits@ == no_edits(),
    {
        let edits = FrameEdits {
            add_tag: false,
            sort_tags: false,
            tags: Vec::new(),
            add_weapon: false,
            weapons: Vec::new(),
            add_system: false,
            systems: Vec::new(),
        };
        assert(edits.tags.deep_view() =~= Seq::<TagEditsView>::empty());
        assert(edits.weapons.deep_view() =~= Seq::<WeaponEditsView>::empty());
        assert(edits.systems.deep_view() =~= Seq::<SystemEditsView>::empty());
        edits
    }
}

/// The record that belongs to the dictionary entry at `at`: the one at that
/// position where the pass made one, else none.
pub open spec fn tag_edits_at(edits: Seq<TagEditsView>, at: int) -> TagEditsView {
    if 0 <= at < edits.len() {
        edits[at]
    } else {
        no_tag_edits()
    }
}

/// The record that belongs to the weapon at `at`.
pub open spec fn weapon_edits_at(edits: Seq<WeaponEditsView>, at: int) -> WeaponEditsView {
    if 0 <= at < edits.len() {
        edits[at]
    } else {
        no_weapon_edits()
    }
}

/// The record that belongs to the system at `at`.
pub open spec fn system_edits_at(edits: Seq<SystemEditsView>, at: int) -> SystemEditsView {
    if 0 <= at < edits.len() {
        edits[at]
    } else {
        no_system_edits()
    }
}

/// `entries` without the last of its entries that the pass marked, if it
/// marked any.
pub open spec fn without_dropped<T>(entries: Seq<T>, marks: Seq<bool>) -> Seq<T> {
    match last_marked(marks, entries.len()) {
        Some(at) => entries.remove(at),
        None => entries,
    }
}

/// The dictionary after the pass over it: "Add tag" appends an empty entry,
/// "Sort" sorts by name, then each entry takes its edits, then the entry
/// recorded for removal leaves.
pub open spec fn tags_after(
    tags: Seq<TagView>,
    add: bool,
    sort: bool,
    edits: Seq<TagEditsView>,
) -> Seq<TagView> {
    let added = if add {
        tags.push(default_tag())
    } else {
        tags
    };
    let shown = if sort {
        sort_by_name(added)
    } else {
        added
    };
    let edited = Seq::new(shown.len(), |at: int| tag_after(shown[at], tag_edits_at(edits, at)));
    without_dropped(edited, edits.map_values(|entry: TagEditsView| entry.drop))
}

/// The weapons after the pass over them: "Add weapon" appends an empty weapon,
/// then each weapon takes its edits, resolved against `dictionary`, then the
/// weapon recorded for removal leaves.
pub open spec fn weapons_after(
    weapons: Seq<WeaponView>,
    add: bool,
    edits: Seq<WeaponEditsView>,
    dictionary: Seq<TagView>,
) -> Seq<WeaponView> {
    let shown = if add {
        weapons.push(default_weapon())
    } else {
        weapons
    };
    let edited = Seq::new(
        shown.len(),
        |at: int| weapon_after(shown[at], weapon_edits_at(edits, at), dictionary),
    );
    without_dropped(edited, edits.map_values(|entry: WeaponEditsView| entry.drop))
}

/// The systems after the pass over them, as for the weapons.
pub open spec fn systems_after(
    systems: Seq<SystemView>,
    add: bool,
    edits: Seq<SystemEditsView>,
    dictionary: Seq<TagView>,
) -> Seq<SystemView> {
    let shown = if add {
        systems.push(default_system())
    } else {
        systems
    };
    let edited = Seq::new(
        shown.len(),
        |at: int| system_after(shown[at], system_edits_at(edits, at), dictionary),
    );
    without_dropped(edited, edits.map_values(|entry: SystemEditsView| entry.drop))
}

/// The catalog after one pass. Weapons and systems resolve their references
/// against the dictionary as the pass over it has left it.
pub open spec fn frame_after(catalog: CatalogView, edits: FrameEditsView) -> CatalogView {
    let tag_db = tags_after(catalog.tag_db, edits.add_tag, edits.sort_tags, edits.tags);
    CatalogView {
        tag_db,
        weapons: weapons_after(catalog.weapons, edits.add_weapon, edits.weapons, tag_db),
        systems: systems_after(catalog.systems, edits.add_system, edits.systems, tag_db),
    }
}

/// The pass over the dictionary.
pub fn tag_section(tags: &mut Vec<Tag>, add: bool, sort: bool, edits: &Vec<TagEdits>)
    ensures
        final(tags).deep_view() == tags_after(old(tags).deep_view(), add, sort, edits.deep_view()),
{
    if add {
        let ghost before = tags.deep_view();
        tags.push(Tag::default());
        assert(tags.deep_view() =~= before.push(default_tag()));
    }
    if sort {
        sort_tags(tags);
    }
    let ghost shown = tags.deep_view();
    let ghost marks = edits.deep_view().map_values(|entry: TagEditsView| entry.drop);
    let n: usize = tags.len();
    let mut dropped: Option<usize> = None;
    let mut at: usize = 0;
    while at < n
        invariant
            at <= n,
            n == tags.len(),
            n == shown.len(),
            marks == edits.deep_view().map_values(|entry: TagEditsView| entry.drop),
            forall|k: int|
                0 <= k < at ==> (#[trigger] tags[k])@ == tag_after(
                    shown[k],
                    tag_edits_at(edits.deep_view(), k),
                ),
            forall|k: int| at <= k < n ==> (#[trigger] tags[k])@ == shown[k],
            match dropped {
                Some(last) => last_marked(marks, at as nat) == Some(last as int),
                None => last_marked(marks, at as nat) is None,
            },
        decreases n - at,
    {
        if at < edits.len() {
            let drop = tags[at].editable_ui(&edits[at]);
            if drop {
                dropped = Some(at);
            }
        }
        at = at + 1;
    }
    let ghost edited = tags.deep_view();
    assert(edited =~= Seq::new(
        shown.len(),
        |k: int| tag_after(shown[k], tag_edits_at(edits.deep_view(), k)),
    ));
    proof {
        lemma_last_marked(marks, n as nat);
    }
    if let Some(last) = dropped {
        tags.remove(last);
        assert(tags.deep_view() =~= edited.remove(last as int));
    }
}

/// The pass over the weapons.
pub fn weapon_section(
    weapons: &mut Vec<Weapon>,
    add: bool,
    edits: &Vec<WeaponEdits>,
    tag_db: &TagLookup,
)
    ensures
        final(weapons).deep_view() == weapons_after(
            old(weapons).deep_view(),
            add,
            edits.deep_view(),
            tag_db@,
        ),
{
    if add {
        let ghost before = weapons.deep_view();
        weapons.push(Weapon::default());
        assert(weapons.deep_view() =~= before.push(default_weapon()));
    }
    let ghost shown = weapons.deep_view();
    let ghost marks = edits.deep_view().map_values(|entry: WeaponEditsView| entry.drop);
    let n: usize = weapons.len();
    let mut dropped: Option<usize> = None;
    let mut at: usize = 0;
    while at < n
        invariant
            at <= n,
            n == weapons.len(),
            n == shown.len(),
            marks == edits.deep_view().map_values(|entry: WeaponEditsView| entry.drop),
            forall|k: int|
                0 <= k < at ==> (#[trigger] weapons[k])@ == weapon_after(
                    shown[k],
                    weapon_edits_at(edits.deep_view(), k),
                    tag_db@,
                ),
            forall|k: int| at <= k < n ==> (#[trigger] weapons[k])@ == shown[k],
            match dropped {
                Some(last) => last_marked(marks, at as nat) == Some(last as int),
                None => last_marked(marks, at as nat) is None,
            },
        decreases n - at,
    {
        if at < edits.len() {
            let drop = weapons[at].editable_ui(&edits[at], tag_db);
            if drop {
                dropped = Some(at);
            }
        } else {
            proof {
                lemma_untouched_weapon(weapons[at as int]@, tag_db@);
            }
        }
        at = at + 1;
    }
    let ghost edited = weapons.deep_view();
    assert(edited =~= Seq::new(
        shown.len(),
        |k: int| weapon_after(shown[k], weapon_edits_at(edits.deep_view(), k), tag_db@),
    ));
    proof {
        lemma_last_marked(marks, n as nat);
    }
    if let Some(last) = dropped {
        weapons.remove(last);
        assert(weapons.deep_view() =~= edited.remove(last as int));
    }
}

/// The pass over the systems.
pub fn system_section(
    systems: &mut Vec<System>,
    add: bool,
    edits: &Vec<SystemEdits>,
    tag_db: &TagLookup,
)
    ensures
        final(systems).deep_view() == systems_after(
            old(systems).deep_view(),
            add,
            edits.deep_view(),
            tag_db@,
        ),
{
    if add {
        let ghost before = systems.deep_view();
        systems.push(System::default());
        assert(systems.deep_view() =~= before.push(default_system()));
    }
    let ghost shown = systems.deep_view();
    let ghost marks = edits.deep_view().map_values(|entry: SystemEditsView| entry.drop);
    let n: usize = systems.len();
    let mut dropped: Option<usize> = None;
    let mut at: usize = 0;
    while at < n
        invariant
            at <= n,
            n == systems.len(),
            n == shown.len(),
            marks == edits.deep_view().map_values(|entry: SystemEditsView| entry.drop),
            forall|k: int|
                0 <= k < at ==> (#[trigger] systems[k])@ == system_after(
                    shown[k],
                    system_edits_at(edits.deep_view(), k),
                    tag_db@,
                ),
            forall|k: int| at <= k < n ==> (#[trigger] systems[k])@ == shown[k],
            match dropped {
                Some(last) => last_marked(marks, at as nat) == Some(last as int),
                None => last_marked(marks, at as nat) is None,
            },
        decreases n - at,
    {
        if at < edits.len() {
            let drop = systems[at].editable_ui(&edits[at], tag_db);
            if drop {
                dropped = Some(at);
            }
        } else {
            proof {
                lemma_untouched_system(systems[at as int]@, tag_db@);
            }
        }
        at = at + 1;
    }
    let ghost edited = systems.deep_view();
    assert(edited =~= Seq::new(
        shown.len(),
        |k: int| system_after(shown[k], system_edits_at(edits.deep_view(), k), tag_db@),
    ));
    proof {
        lemma_last_marked(marks, n as nat);
    }
    if let Some(last) = dropped {
        systems.remove(last);
        assert(systems.deep_view() =~= edited.remove(last as int));
    }
}

/// A weapon whose editor was left alone is as it was.
pub proof fn lemma_untouched_weapon(weapon: WeaponView, dictionary: Seq<TagView>)
    ensures
        weapon_after(weapon, no_weapon_edits(), dictionary) == weapon,
{
    lemma_selectors_untouched(weapon.tags, false, dictionary);
}

/// A system whose editor was left alone is as it was.
pub proof fn lemma_untouched_system(system: SystemView, dictionary: Seq<TagView>)
    ensures
        system_after(system, no_system_edits(), dictionary) == system,
{
    lemma_selectors_untouched(system.tags, false, dictionary);
}

/// Weapons that a pass leaves alone are as they were, whatever has become of
/// the dictionary.
pub proof fn lemma_untouched_weapons(weapons: Seq<WeaponView>, dictionary: Seq<TagView>)
    ensures
        weapons_after(weapons, false, Seq::empty(), dictionary) == weapons,
{
    let edits = Seq::<WeaponEditsView>::empty();
    let marks = edits.map_values(|entry: WeaponEditsView| entry.drop);
    lemma_last_marked(marks, weapons.len());
    assert forall|at: int| 0 <= at < weapons.len() implies weapon_after(
        #[trigger] weapons[at],
        weapon_edits_at(edits, at),
        dictionary,
    ) == weapons[at] by {
        lemma_untouched_weapon(weapons[at], dictionary);
    }
    assert(Seq::new(
        weapons.len(),
        |at: int| weapon_after(weapons[at], weapon_edits_at(edits, at), dictionary),
    ) =~= weapons);
}

/// Systems that a pass leaves alone are as they were, whatever has become of
/// the dictionary.
pub proof fn lemma_untouched_systems(systems: Seq<SystemView>, dictionary: Seq<TagView>)
    ensures
        systems_after(systems, false, Seq::empty(), dictionary) == systems,
{
    let edits = Seq::<SystemEditsView>::empty();
    let marks = edits.map_values(|entry: SystemEditsView| entry.drop);
    lemma_last_marked(marks, systems.len());
    assert forall|at: int| 0 <= at < systems.len() implies system_after(
        #[trigger] systems[at],
        system_edits_at(edits, at),
        dictionary,
    ) == systems[at] by {
        lemma_untouched_system(systems[at], dictionary);
    }
    assert(Seq::new(
        systems.len(),
        |at: int| system_after(systems[at], system_edits_at(edits, at), dictionary),
    ) =~= systems);
}

/// The edits of a pass in which the name of the dictionary entry at `at` is
/// overwritten with `name` and nothing else is touched.
pub open spec fn rename_edits(at: int, name: Seq<char>) -> FrameEditsView {
    FrameEditsView {
        add_tag: false,
        sort_tags: false,
        tags: Seq::new(
            (at + 1) as nat,
            |entry: int|
                if entry == at {
                    TagEditsView { name: Some(name), fluff: None, drop: false }
                } else {
                    no_tag_edits()
                },
        ),
        add_weapon: false,
        weapons: Seq::empty(),
        add_system: false,
        systems: Seq::empty(),
    }
}

/// Renaming a tag changes that entry of the dictionary and nothing else: no
/// weapon and no system has a reference altered, added or removed. References
/// to the new name resolve from then on.
pub proof fn lemma_rename_leaves_references(catalog: CatalogView, at: int, name: Seq<char>)
    requires
        0 <= at < catalog.tag_db.len(),
    ensures
        frame_after(catalog, rename_edits(at, name)).tag_db == catalog.tag_db.update(
            at,
            TagView { name, fluff: catalog.tag_db[at].fluff },
        ),
        frame_after(catalog, rename_edits(at, name)).weapons == catalog.weapons,
        frame_after(catalog, rename_edits(at, name)).systems == catalog.systems,
        resolves(frame_after(catalog, rename_edits(at, name)).tag_db, name),
{
    let edits = rename_edits(at, name);
    let renamed = catalog.tag_db.update(at, TagView { name, fluff: catalog.tag_db[at].fluff });
    let marks = edits.tags.map_values(|entry: TagEditsView| entry.drop);
    lemma_last_marked(marks, catalog.tag_db.len());
    let edited = Seq::new(
        catalog.tag_db.len(),
        |entry: int| tag_after(catalog.tag_db[entry], tag_edits_at(edits.tags, entry)),
    );
    assert(edited =~= renamed);
    lemma_untouched_weapons(catalog.weapons, renamed);
    lemma_untouched_systems(catalog.systems, renamed);
    lemma_last_named(renamed, name);
    lemma_lookup_view(renamed);
    assert(renamed[at].name == name);
}

/// Once a tag is renamed, references to its old name dangle, unless another
/// entry of the dictionary bears that name too.
pub proof fn lemma_rename_dangles(catalog: CatalogView, at: int, name: Seq<char>)
    requires
        0 <= at < catalog.tag_db.len(),
        name != catalog.tag_db[at].name,
        forall|other: int|
            0 <= other < catalog.tag_db.len() && other != at ==> (
            #[trigger] catalog.tag_db[other]).name != catalog.tag_db[at].name,
    ensures
        !resolves(frame_after(catalog, rename_edits(at, name)).tag_db, catalog.tag_db[at].name),
{
    let renamed = catalog.tag_db.update(at, TagView { name, fluff: catalog.tag_db[at].fluff });
    lemma_rename_leaves_references(catalog, at, name);
    lemma_last_named(renamed, catalog.tag_db[at].name);
    lemma_lookup_view(renamed);
    if last_named(renamed, catalog.tag_db[at].name) is Some {
        let found = last_named(renamed, catalog.tag_db[at].name)->0;
        if found != at {
            assert(renamed[found] == catalog.tag_db[found]);
        }
    }
}

/// A pass leaves the numbers of every weapon and system within their sliders.
pub proof fn lemma_frame_in_range(catalog: CatalogView, edits: FrameEditsView)
    requires
        catalog.in_range(),
    ensures
        frame_after(catalog, edits).in_range(),
{
    let after = frame_after(catalog, edits);
    let weapon_marks = edits.weapons.map_values(|entry: WeaponEditsView| entry.drop);
    let system_marks = edits.systems.map_values(|entry: SystemEditsView| entry.drop);
    let shown_weapons = if edits.add_weapon {
        catalog.weapons.push(default_weapon())
    } else {
        catalog.weapons
    };
    let shown_systems = if edits.add_system {
        catalog.systems.push(default_system())
    } else {
        catalog.systems
    };
    lemma_last_marked(weapon_marks, shown_weapons.len());
    lemma_last_marked(system_marks, shown_systems.len());
    assert forall|at: int| 0 <= at < after.weapons.len() implies (
    #[trigger] after.weapons[at]).in_range() by {
        let edited = Seq::new(
            shown_weapons.len(),
            |k: int|
                weapon_after(shown_weapons[k], weapon_edits_at(edits.weapons, k), after.tag_db),
        );
        match last_marked(weapon_marks, shown_weapons.len()) {
            Some(gone) => {
                let from = if at < gone { at } else { at + 1 };
                assert(after.weapons[at] == edited[from]);
                assert(shown_weapons[from].in_range());
            },
            None => {
                assert(after.weapons[at] == edited[at]);
                assert(shown_weapons[at].in_range());
            },
        }
    }
    assert forall|at: int| 0 <= at < after.systems.len() implies (
    #[trigger] after.systems[at]).in_range() by {
        let edited = Seq::new(
            shown_systems.len(),
            |k: int|
                system_after(shown_systems[k], system_edits_at(edits.systems, k), after.tag_db),
        );
        match last_marked(system_marks, shown_systems.len()) {
            Some(gone) => {
                let from = if at < gone { at } else { at + 1 };
                assert(after.systems[at] == edited[from]);
                assert(shown_systems[from].in_range());
            },
            None => {
                assert(after.systems[at] == edited[at]);
                assert(shown_systems[at].in_range());
            },
        }
    }
}

impl AppData {
    /// One pass of the editor over the catalog: applies what the user did in
    /// it. The lookup view of the tags is built when the pass over the
    /// dictionary is done and before the first weapon is shown.
    pub fn ui(&mut self, edits: &FrameEdits)
        ensures
            final(self)@ == frame_after(old(self)@, edits@),
            old(self)@.in_range() ==> final(self)@.in_range(),
    {
        proof {
            if old(self)@.in_range() {
                lemma_frame_in_range(old(self)@, edits@);
            }
        }
        tag_section(&mut self.tag_db, edits.add_tag, edits.sort_tags, &edits.tags);
        let tag_map = TagLookup::build(&self.tag_db);
        weapon_section(&mut self.weapons, edits.add_weapon, &edits.weapons, &tag_map);
        system_section(&mut self.systems, edits.add_system, &edits.systems, &tag_map);
    }
}

} // verus!
