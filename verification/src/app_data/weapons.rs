//! Weapons, and the pass of the editor over one weapon.

use vstd::prelude::*;
use crate::app_data::fields::{
    chosen,
    edit_text,
    edited_text,
    slid,
    slide,
    COST_MAX,
    COST_MIN,
};
use crate::app_data::lookup::TagLookup;
use crate::app_data::tags::{
    edited_tags,
    lemma_selectors_untouched,
    SelectorEdit,
    Tag,
    TagId,
    TagView,
};

verus! {

/// The least range that a weapon can be given.
pub const RANGE_MIN: i32 = 0;

/// The greatest range that a weapon can be given.
pub const RANGE_MAX: i32 = 5;

/// The class of a weapon.
#[derive(Clone, Copy, Debug, PartialEq, Eq, PartialOrd, Ord, Hash, Structural)]
pub enum WeaponClass {
    Superheavy,
    Primary,
    Auxiliary,
}

impl Default for WeaponClass {
    fn default() -> (class: WeaponClass)
        ensures
            class == WeaponClass::Primary,
    {
        WeaponClass::Primary
    }
}

impl WeaponClass {
    /// The name under which a member is shown and stored: the member's own.
    pub open spec fn display(self) -> Seq<char> {
        match self {
            WeaponClass::Superheavy => "Superheavy"@,
            WeaponClass::Primary => "Primary"@,
            WeaponClass::Auxiliary => "Auxiliary"@,
        }
    }

    /// The member that a name stands for, if it is the name of one.
    pub open spec fn parsed(name: Seq<char>) -> Option<WeaponClass> {
        if name == "Superheavy"@ {
            Some(WeaponClass::Superheavy)
        } else if name == "Primary"@ {
            Some(WeaponClass::Primary)
        } else if name == "Auxiliary"@ {
            Some(WeaponClass::Auxiliary)
        } else {
            None
        }
    }

    /// The member's display name.
    pub fn to_string(&self) -> (name: String)
        ensures
            name@ == self.display(),
    {
        match self {
            WeaponClass::Superheavy => "Superheavy".to_owned(),
            WeaponClass::Primary => "Primary".to_owned(),
            WeaponClass::Auxiliary => "Auxiliary".to_owned(),
        }
    }

    /// Reads a member from its display name.
    pub fn parse(name: &str) -> (member: Option<WeaponClass>)
        ensures
            member == WeaponClass::parsed(name@),
    {
        let name = name.to_owned();
        if name == "Superheavy".to_owned() {
            Some(WeaponClass::Superheavy)
        } else if name == "Primary".to_owned() {
            Some(WeaponClass::Primary)
        } else if name == "Auxiliary".to_owned() {
            Some(WeaponClass::Auxiliary)
        } else {
            None
        }
    }

    /// Every member is read back from its display name.
    pub proof fn lemma_parse_display(member: WeaponClass)
        ensures
            WeaponClass::parsed(member.display()) == Some(member),
    {
        reveal_strlit("Superheavy");
        reveal_strlit("Primary");
        reveal_strlit("Auxiliary");
        assert("Superheavy"@.len() == 10 && "Primary"@.len() == 7 && "Auxiliary"@.len() == 9);
    }
}

/// How a weapon picks its targets.
#[derive(Clone, Copy, Debug, PartialEq, Eq, PartialOrd, Ord, Hash, Structural)]
pub enum WeaponTargeting {
    SingleTarget,
    Area,
}

impl Default for WeaponTargeting {
    fn default() -> (targeting: WeaponTargeting)
        ensures
            targeting == WeaponTargeting::SingleTarget,
    {
        WeaponTargeting::SingleTarget
    }
}

impl WeaponTargeting {
    /// The name under which a member is shown and stored: the member's own.
    pub open spec fn display(self) -> Seq<char> {
        match self {
            WeaponTargeting::SingleTarget => "SingleTarget"@,
            WeaponTargeting::Area => "Area"@,
        }
    }

    /// The member that a name stands for, if it is the name of one.
    pub open spec fn parsed(name: Seq<char>) -> Option<WeaponTargeting> {
        if name == "SingleTarget"@ {
            Some(WeaponTargeting::SingleTarget)
        } else if name == "Area"@ {
            Some(WeaponTargeting::Area)
        } else {
            None
        }
    }

    /// The member's display name.
    pub fn to_string(&self) -> (name: String)
        ensures
            name@ == self.display(),
    {
        match self {
            WeaponTargeting::SingleTarget => "SingleTarget".to_owned(),
            WeaponTargeting::Area => "Area".to_owned(),
        }
    }

    /// Reads a member from its display name.
    pub fn parse(name: &str) -> (member: Option<WeaponTargeting>)
        ensures
            member == WeaponTargeting::parsed(name@),
    {
        let name = name.to_owned();
        if name == "SingleTarget".to_owned() {
            Some(WeaponTargeting::SingleTarget)
        } else if name == "Area".to_owned() {
            Some(WeaponTargeting::Area)
        } else {
            None
        }
    }

    /// Every member is read back from its display name.
    pub proof fn lemma_parse_display(member: WeaponTargeting)
        ensures
            WeaponTargeting::parsed(member.display()) == Some(member),
    {
        reveal_strlit("SingleTarget");
        reveal_strlit("Area");
        assert("SingleTarget"@.len() == 12 && "Area"@.len() == 4);
    }
}

/// A weapon of the catalog.
#[derive(Debug, PartialEq, Eq)]
pub struct Weapon {
    pub name: String,
    pub fluff: String,
    pub cost: i32,
    pub class: WeaponClass,
    pub targeting: WeaponTargeting,
    pub tags: Vec<TagId>,
    pub range_min: i32,
    pub range_max: i32,
    pub damage: String,
    pub rules: String,
}

/// What a weapon holds, as plain values.
pub ghost struct WeaponView {
    pub name: Seq<char>,
    pub fluff: Seq<char>,
    pub cost: i32,
    pub class: WeaponClass,
    pub targeting: WeaponTargeting,
    pub tags: Seq<Seq<char>>,
    pub range_min: i32,
    pub range_max: i32,
    pub damage: Seq<char>,
    pub rules: Seq<char>,
}

impl WeaponView {
    /// The numbers of the weapon lie within their sliders. Nothing asks the
    /// least range to stay below the greatest.
    pub open spec fn in_range(self) -> bool {
        &&& COST_MIN <= self.cost <= COST_MAX
        &&& RANGE_MIN <= self.range_min <= RANGE_MAX
        &&& RANGE_MIN <= self.range_max <= RANGE_MAX
    }
}

impl View for Weapon {
    type V = WeaponView;

    open spec fn view(&self) -> WeaponView {
        WeaponView {
            name: self.name@,
            fluff: self.fluff@,
            cost: self.cost,
            class: self.class,
            targeting: self.targeting,
            tags: self.tags.deep_view(),
            range_min: self.range_min,
            range_max: self.range_max,
            damage: self.damage@,
            rules: self.rules@,
        }
    }
}

impl DeepView for Weapon {
    type V = WeaponView;

    open spec fn deep_view(&self) -> WeaponView {
        self@
    }
}

/// The weapon that "add weapon" appends: texts and references empty, numbers
/// zero, a primary weapon against a single target.
pub open spec fn default_weapon() -> WeaponView {
    WeaponView {
        name: Seq::empty(),
        fluff: Seq::empty(),
        cost: 0,
        class: WeaponClass::Primary,
        targeting: WeaponTargeting::SingleTarget,
        tags: Seq::empty(),
        range_min: 0,
        range_max: 0,
        damage: Seq::empty(),
        rules: Seq::empty(),
    }
}

impl Default for Weapon {
    fn default() -> (weapon: Weapon)
        ensures
            weapon@ == default_weapon(),
            weapon@.in_range(),
    {
        let weapon = Weapon {
            name: String::new(),
            fluff: String::new(),
            cost: 0,
            class: WeaponClass::Primary,
            targeting: WeaponTargeting::SingleTarget,
            tags: Vec::new(),
            range_min: 0,
            range_max: 0,
            damage: String::new(),
            rules: String::new(),
        };
        assert(weapon.tags.deep_view() =~= Seq::<Seq<char>>::empty());
        weapon
    }
}

impl Clone for Weapon {
    fn clone(&self) -> (weapon: Weapon)
        ensures
            weapon@ == self@,
    {
        let tags = self.tags.clone();
        assert(tags.deep_view() =~= self.tags.deep_view());
        Weapon {
            name: self.name.clone(),
            fluff: self.fluff.clone(),
            cost: self.cost,
            class: self.class,
            targeting: self.targeting,
            tags,
            range_min: self.range_min,
            range_max: self.range_max,
            damage: self.damage.clone(),
            rules: self.rules.clone(),
        }
    }
}

/// What the user did to the editor of one weapon during a pass. A field is
/// `None`, or `false`, where its widget was left alone.
#[derive(Debug)]
pub struct WeaponEdits {
    pub name: Option<String>,
    pub fluff: Option<String>,
    /// The number entered into the cost slider, before clamping.
    pub cost: Option<i32>,
    pub class: Option<WeaponClass>,
    pub targeting: Option<WeaponTargeting>,
    pub range_max: Option<i32>,
    pub range_min: Option<i32>,
    /// One edit for each reference, in the order of the references.
    pub tags: Vec<SelectorEdit>,
    pub add_tag: bool,
    pub damage: Option<String>,
    pub rules: Option<String>,
    /// Whether the removal of the weapon was asked for.
    pub drop: bool,
}

/// The edits of a pass over one weapon, as plain values.
pub ghost struct WeaponEditsView {
    pub name: Option<Seq<char>>,
    pub fluff: Option<Seq<char>>,
    pub cost: Option<i32>,
    pub class: Option<WeaponClass>,
    pub targeting: Option<WeaponTargeting>,
    pub range_max: Option<i32>,
    pub range_min: Option<i32>,
    pub tags: Seq<SelectorEdit>,
    pub add_tag: bool,
    pub damage: Option<Seq<char>>,
    pub rules: Option<Seq<char>>,
    pub drop: bool,
}

impl View for WeaponEdits {
    type V = WeaponEditsView;

    open spec fn view(&self) -> WeaponEditsView {
        WeaponEditsView {
            name: self.name.deep_view(),
            fluff: self.fluff.deep_view(),
            cost: self.cost,
            class: self.class,
            targeting: self.targeting,
            range_max: self.range_max,
            range_min: self.range_min,
            tags: self.tags@,
            add_tag: self.add_tag,
            damage: self.damage.deep_view(),
            rules: self.rules.deep_view(),
            drop: self.drop,
        }
    }
}

impl DeepView for WeaponEdits {
    type V = WeaponEditsView;

    open spec fn deep_view(&self) -> WeaponEditsView {
        self@
    }
}

/// The pass in which no widget of the weapon was touched.
pub open spec fn no_weapon_edits() -> WeaponEditsView {
    WeaponEditsView {
        name: None,
        fluff: None,
        cost: None,
        class: None,
        targeting: None,
        range_max: None,
        range_min: None,
        tags: Seq::empty(),
        add_tag: false,
        damage: None,
        rules: None,
        drop: false,
    }
}

impl Default for WeaponEdits {
    fn default() -> (edits: WeaponEdits)
        ensures
            edits@ == no_weapon_edits(),
    {
        WeaponEdits {
            name: None,
            fluff: None,
            cost: None,
            class: None,
            targeting: None,
            range_max: None,
            range_min: None,
            tags: Vec::new(),
            add_tag: false,
            damage: None,
            rules: None,
            drop: false,
        }
    }
}

/// The weapon after one pass of its editor over it.
pub open spec fn weapon_after(
    weapon: WeaponView,
    edits: WeaponEditsView,
    dictionary: Seq<TagView>,
) -> WeaponView {
    WeaponView {
        name: edited_text(weapon.name, edits.name),
        fluff: edited_text(weapon.fluff, edits.fluff),
        cost: slid(weapon.cost, edits.cost, COST_MIN, COST_MAX),
        class: chosen(weapon.class, edits.class),
        targeting: chosen(weapon.targeting, edits.targeting),
        tags: edited_tags(weapon.tags, edits.tags, edits.add_tag, dictionary),
        range_min: slid(weapon.range_min, edits.range_min, RANGE_MIN, RANGE_MAX),
        range_max: slid(weapon.range_max, edits.range_max, RANGE_MIN, RANGE_MAX),
        damage: edited_text(weapon.damage, edits.damage),
        rules: edited_text(weapon.rules, edits.rules),
    }
}

/// Whatever is entered into a slider of a weapon, the number that it leaves
/// lies within the slider: the cost from -5 to 10, each range from 0 to 5.
pub proof fn lemma_weapon_numbers_clamped(
    weapon: WeaponView,
    edits: WeaponEditsView,
    dictionary: Seq<TagView>,
)
    ensures
        edits.cost is Some ==> -5 <= weapon_after(weapon, edits, dictionary).cost <= 10,
        edits.range_min is Some ==> 0 <= weapon_after(weapon, edits, dictionary).range_min <= 5,
        edits.range_max is Some ==> 0 <= weapon_after(weapon, edits, dictionary).range_max <= 5,
        weapon.in_range() ==> weapon_after(weapon, edits, dictionary).in_range(),
{
}

/// "Add Tag" on a weapon while the dictionary is empty leaves the weapon as it
/// is.
pub proof fn lemma_add_tag_without_tags(weapon: WeaponView)
    ensures
        weapon_after(
            weapon,
            WeaponEditsView { add_tag: true, ..no_weapon_edits() },
            Seq::empty(),
        ) == weapon,
{
    lemma_selectors_untouched(weapon.tags, true, Seq::empty());
}

impl Weapon {
    /// Applies what the user did to the editor of this weapon during one pass,
    /// and says whether the weapon is to be dropped from the catalog once the
    /// pass over the weapons is done.
    ///
    /// Free text is replaced by what was typed. A number that was entered is
    /// clamped to its slider, so numbers that lay within their sliders still
    /// do. The references are edited as [`edited_tags`] says.
    pub fn editable_ui(&mut self, edits: &WeaponEdits, tag_db: &TagLookup) -> (drop: bool)
        ensures
            final(self)@ == weapon_after(old(self)@, edits@, tag_db@),
            old(self)@.in_range() ==> final(self)@.in_range(),
            drop == edits.drop,
    {
        edit_text(&mut self.name, &edits.name);
        edit_text(&mut self.fluff, &edits.fluff);
        slide(&mut self.cost, edits.cost, COST_MIN, COST_MAX);
        if let Some(class) = edits.class {
            self.class = class;
        }
        if let Some(targeting) = edits.targeting {
            self.targeting = targeting;
        }
        slide(&mut self.range_max, edits.range_max, RANGE_MIN, RANGE_MAX);
        slide(&mut self.range_min, edits.range_min, RANGE_MIN, RANGE_MAX);
        Tag::edit_references(&mut self.tags, &edits.tags, edits.add_tag, tag_db);
        edit_text(&mut self.damage, &edits.damage);
        edit_text(&mut self.rules, &edits.rules);
        edits.drop
    }
}

} // verus!
