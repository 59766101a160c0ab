//! Ship systems, and the pass of the editor over one system.

use vstd::prelude::*;
use crate::app_data::fields::{
    clamp,
    edit_text,
    edited_text,
    slid,
    slide,
    COST_MAX,
    COST_MIN,
};
use crate::app_data::lookup::TagLookup;
use crate::app_data::tags::{
    edited_tags,
    lemma_selectors_untouched,
    SelectorEdit,
    Tag,
    TagId,
    TagView,
};

verus! {

/// The least count of a limited system, and the count that a system has when
/// it has just been made limited.
pub const LIMIT_MIN: i32 = 1;

/// The greatest count of a limited system.
pub const LIMIT_MAX: i32 = 5;

/// A ship system of the catalog.
#[derive(Debug, PartialEq, Eq)]
pub struct System {
    pub name: String,
    pub fluff: String,
    pub cost: i32,
    /// `None` for a system without a limit, else how many a ship may carry.
    pub limited: Option<i32>,
    pub tags: Vec<TagId>,
    pub rules: String,
}

/// What a system holds, as plain values.
pub ghost struct SystemView {
    pub name: Seq<char>,
    pub fluff: Seq<char>,
    pub cost: i32,
    pub limited: Option<i32>,
    pub tags: Seq<Seq<char>>,
    pub rules: Seq<char>,
}

impl SystemView {
    /// The numbers of the system lie within their sliders.
    pub open spec fn in_range(self) -> bool {
        &&& COST_MIN <= self.cost <= COST_MAX
        &&& self.limited matches Some(count) ==> LIMIT_MIN <= count <= LIMIT_MAX
    }
}

impl View for System {
    type V = SystemView;

    open spec fn view(&self) -> SystemView {
        SystemView {
            name: self.name@,
            fluff: self.fluff@,
            cost: self.cost,
            limited: self.limited,
            tags: self.tags.deep_view(),
            rules: self.rules@,
        }
    }
}

impl DeepView for System {
    type V = SystemView;

    open spec fn deep_view(&self) -> SystemView {
        self@
    }
}

/// The system that "add system" appends: texts and references empty, no cost,
/// no limit.
pub open spec fn default_system() -> SystemView {
    SystemView {
        name: Seq::empty(),
        fluff: Seq::empty(),
        cost: 0,
        limited: None,
        tags: Seq::empty(),
        rules: Seq::empty(),
    }
}

impl Default for System {
    fn default() -> (system: System)
        ensures
            system@ == default_system(),
            system@.in_range(),
    {
        let system = System {
            name: String::new(),
            fluff: String::new(),
            cost: 0,
            limited: None,
            tags: Vec::new(),
            rules: String::new(),
        };
        assert(system.tags.deep_view() =~= Seq::<Seq<char>>::empty());
        system
    }
}

impl Clone for System {
    fn clone(&self) -> (system: System)
        ensures
            system@ == self@,
    {
        let tags = self.tags.clone();
        assert(tags.deep_view() =~= self.tags.deep_view());
        System {
            name: self.name.clone(),
            fluff: self.fluff.clone(),
            cost: self.cost,
            limited: self.limited,
            tags,
            rules: self.rules.clone(),
        }
    }
}

/// What the user did to the editor of one system during a pass. A field is
/// `None`, or `false`, where its widget was left alone.
#[derive(Debug)]
pub struct SystemEdits {
    pub name: Option<String>,
    pub fluff: Option<String>,
    /// The number entered into the cost slider, before clamping.
    pub cost: Option<i32>,
    /// Whether the button that switches between "Unlimited" and "Limited" was
    /// pressed.
    pub toggle_limited: bool,
    /// The number entered into the slider of the count, before clamping. The
    /// slider is there only while the system is limited.
    pub limit: Option<i32>,
    /// One edit for each reference, in the order of the references.
    pub tags: Vec<SelectorEdit>,
    pub add_tag: bool,
    pub rules: Option<String>,
    /// Whether the removal of the system was asked for.
    pub drop: bool,
}

/// The edits of a pass over one system, as plain values.
pub ghost struct SystemEditsView {
    pub name: Option<Seq<char>>,
    pub fluff: Option<Seq<char>>,
    pub cost: Option<i32>,
    pub toggle_limited: bool,
    pub limit: Option<i32>,
    pub tags: Seq<SelectorEdit>,
    pub add_tag: bool,
    pub rules: Option<Seq<char>>,
    pub drop: bool,
}

impl View for SystemEdits {
    type V = SystemEditsView;

    open spec fn view(&self) -> SystemEditsView {
        SystemEditsView {
            name: self.name.deep_view(),
            fluff: self.fluff.deep_view(),
            cost: self.cost,
            toggle_limited: self.toggle_limited,
            limit: self.limit,
            tags: self.tags@,
            add_tag: self.add_tag,
            rules: self.rules.deep_view(),
            drop: self.drop,
        }
    }
}

impl DeepView for SystemEdits {
    type V = SystemEditsView;

    open spec fn deep_view(&self) -> SystemEditsView {
        self@
    }
}

/// The pass in which no widget of the system was touched.
pub open spec fn no_system_edits() -> SystemEditsView {
    SystemEditsView {
        name: None,
        fluff: None,
        cost: None,
        toggle_limited: false,
        limit: None,
        tags: Seq::empty(),
        add_tag: false,
        rules: None,
        drop: false,
    }
}

impl Default for SystemEdits {
    fn default() -> (edits: SystemEdits)
        ensures
            edits@ == no_system_edits(),
    {
        SystemEdits {
            name: None,
            fluff: None,
            cost: None,
            toggle_limited: false,
            limit: None,
            tags: Vec::new(),
            add_tag: false,
            rules: None,
            drop: false,
        }
    }
}

/// The limit after the toggle button: pressed on a system without a limit it
/// gives the least count, pressed on a limited system it drops the count
/// whatever it was.
pub open spec fn toggled(limited: Option<i32>, pressed: bool) -> Option<i32> {
    if !pressed {
        limited
    } else if limited is None {
        Some(LIMIT_MIN)
    } else {
        None
    }
}

/// The limit after one pass: first the toggle button, then the slider of the
/// count, which is there only if the system is limited by then.
pub open spec fn limited_after(limited: Option<i32>, pressed: bool, entered: Option<i32>) -> Option<
    i32,
> {
    match toggled(limited, pressed) {
        Some(count) => Some(slid(count, entered, LIMIT_MIN, LIMIT_MAX)),
        None => None,
    }
}

/// The system after one pass of its editor over it.
pub open spec fn system_after(
    system: SystemView,
    edits: SystemEditsView,
    dictionary: Seq<TagView>,
) -> SystemView {
    SystemView {
        name: edited_text(system.name, edits.name),
        fluff: edited_text(system.fluff, edits.fluff),
        cost: slid(system.cost, edits.cost, COST_MIN, COST_MAX),
        limited: limited_after(system.limited, edits.toggle_limited, edits.limit),
        tags: edited_tags(system.tags, edits.tags, edits.add_tag, dictionary),
        rules: edited_text(system.rules, edits.rules),
    }
}

/// The toggle button on a system without a limit gives it the count 1; on a
/// limited system it drops the count, whatever the count was and whatever was
/// entered into its slider in the same pass.
pub proof fn lemma_toggle_limited(count: i32, entered: Option<i32>)
    ensures
        limited_after(None, true, None) == Some(1i32),
        limited_after(Some(count), true, entered) is None,
{
}

/// Whatever is entered into a slider of a system, the number that it leaves
/// lies within the slider: the cost from -5 to 10, the count from 1 to 5.
pub proof fn lemma_system_numbers_clamped(
    system: SystemView,
    edits: SystemEditsView,
    dictionary: Seq<TagView>,
)
    ensures
        edits.cost is Some ==> -5 <= system_after(system, edits, dictionary).cost <= 10,
        edits.limit is Some ==> (system_after(system, edits, dictionary).limited matches Some(
            count,
        ) ==> 1 <= count <= 5),
        system.in_range() ==> system_after(system, edits, dictionary).in_range(),
{
}

/// "Add Tag" on a system while the dictionary is empty leaves the system as it
/// is.
pub proof fn lemma_add_tag_without_tags(system: SystemView)
    ensures
        system_after(
            system,
            SystemEditsView { add_tag: true, ..no_system_edits() },
            Seq::empty(),
        ) == system,
{
    lemma_selectors_untouched(system.tags, true, Seq::empty());
}

impl System {
    /// Applies what the user did to the editor of this system during one pass,
    /// and says whether the system is to be dropped from the catalog once the
    /// pass over the systems is done.
    ///
    /// Free text is replaced by what was typed. A number that was entered is
    /// clamped to its slider, so numbers that lay within their sliders still
    /// do. The limit follows [`limited_after`], the references
    /// [`edited_tags`].
    pub fn editable_ui(&mut self, edits: &SystemEdits, tag_db: &TagLookup) -> (drop: bool)
        ensures
            final(self)@ == system_after(old(self)@, edits@, tag_db@),
            old(self)@.in_range() ==> final(self)@.in_range(),
            drop == edits.drop,
    {
        edit_text(&mut self.name, &edits.name);
        edit_text(&mut self.fluff, &edits.fluff);
        slide(&mut self.cost, edits.cost, COST_MIN, COST_MAX);
        if edits.toggle_limited {
            self.limited = match self.limited {
                None => Some(LIMIT_MIN),
                Some(_) => None,
            };
        }
        if self.limited.is_some() {
            if let Some(number) = edits.limit {
                self.limited = Some(clamp(number, LIMIT_MIN, LIMIT_MAX));
            }
        }
        Tag::edit_references(&mut self.tags, &edits.tags, edits.add_tag, tag_db);
        edit_text(&mut self.rules, &edits.rules);
        edits.drop
    }
}

} // verus!
