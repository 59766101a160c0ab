//! The catalog and its parts.

use vstd::prelude::*;
use crate::app_data::systems::{System, SystemView};
use crate::app_data::tags::{Tag, TagView};
use crate::app_data::weapons::{Weapon, WeaponView};

pub mod fields;
pub mod lookup;
pub mod order;
pub mod systems;
pub mod tags;
pub mod weapons;

verus! {

/// The catalog: the tag dictionary, and the weapons and systems that refer to
/// its tags by name.
///
/// The dictionary is a sequence because its order is what the user sees and
/// edits in; it may hold a name twice. Tags are found by name through a
/// [`TagLookup`](crate::app_data::lookup::TagLookup), which is built anew for
/// each pass of the editor.
#[derive(Debug, PartialEq, Eq)]
pub struct AppData {
    pub tag_db: Vec<Tag>,
    pub weapons: Vec<Weapon>,
    pub systems: Vec<System>,
}

/// What a catalog holds, as plain values.
pub ghost struct CatalogView {
    pub tag_db: Seq<TagView>,
    pub weapons: Seq<WeaponView>,
    pub systems: Seq<SystemView>,
}

impl CatalogView {
    /// The numbers of every weapon and system lie within their sliders.
    pub open spec fn in_range(self) -> bool {
        &&& forall|i: int| 0 <= i < self.weapons.len() ==> (#[trigger] self.weapons[i]).in_range()
        &&& forall|i: int| 0 <= i < self.systems.len() ==> (#[trigger] self.systems[i]).in_range()
    }
}

impl View for AppData {
    type V = CatalogView;

    open spec fn view(&self) -> CatalogView {
        CatalogView {
            tag_db: self.tag_db.deep_view(),
            weapons: self.weapons.deep_view(),
            systems: self.systems.deep_view(),
        }
    }
}

impl DeepView for AppData {
    type V = CatalogView;

    open spec fn deep_view(&self) -> CatalogView {
        self@
    }
}

/// The catalog that holds nothing.
pub open spec fn empty_catalog() -> CatalogView {
    CatalogView { tag_db: Seq::empty(), weapons: Seq::empty(), systems: Seq::empty() }
}

impl Default for AppData {
    fn default() -> (catalog: AppData)
        ensures
            catalog@ == empty_catalog(),
            catalog@.in_range(),
    {
        let catalog = AppData { tag_db: Vec::new(), weapons: Vec::new(), systems: Vec::new() };
        assert(catalog.tag_db.deep_view() =~= Seq::<TagView>::empty());
        assert(catalog.weapons.deep_view() =~= Seq::<WeaponView>::empty());
        assert(catalog.systems.deep_view() =~= Seq::<SystemView>::empty());
        catalog
    }
}

impl Clone for AppData {
    fn clone(&self) -> (catalog: AppData)
        ensures
            catalog@ == self@,
    {
        let tag_db = self.tag_db.clone();
        let weapons = self.weapons.clone();
        let systems = self.systems.clone();
        assert(tag_db.deep_view() =~= self.tag_db.deep_view());
        assert(weapons.deep_view() =~= self.weapons.deep_view());
        assert(systems.deep_view() =~= self.systems.deep_view());
        AppData { tag_db, weapons, systems }
    }
}

} // verus!
