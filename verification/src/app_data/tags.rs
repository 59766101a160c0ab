//! Tags: the entries of the tag dictionary, and the references that weapons
//! and systems hold to them by name.

use vstd::prelude::*;
use vstd::string::StringExecFns;
use crate::app_data::fields::{edit_text, edited_text};
use crate::app_data::lookup::{lemma_lookup_view, resolves, TagLookup};

verus! {

/// A tag is referred to by its name. A reference is a copy of the name, so it
/// outlives a reordering of the dictionary and dangles once no tag bears the
/// name any more.
pub type TagId = String;

/// One entry of the tag dictionary.
#[derive(Debug, PartialEq, Eq)]
pub struct Tag {
    pub name: TagId,
    pub fluff: String,
}

/// What a tag holds, as plain sequences of characters.
pub ghost struct TagView {
    pub name: Seq<char>,
    pub fluff: Seq<char>,
}

impl View for Tag {
    type V = TagView;

    open spec fn view(&self) -> TagView {
        TagView { name: self.name@, fluff: self.fluff@ }
    }
}

impl DeepView for Tag {
    type V = TagView;

    open spec fn deep_view(&self) -> TagView {
        self@
    }
}

/// The tag that "add tag" appends: both texts empty.
pub open spec fn default_tag() -> TagView {
    TagView { name: Seq::empty(), fluff: Seq::empty() }
}

impl Default for Tag {
    fn default() -> (tag: Tag)
        ensures
            tag@ == default_tag(),
    {
        Tag { name: String::new(), fluff: String::new() }
    }
}

impl Clone for Tag {
    fn clone(&self) -> (tag: Tag)
        ensures
            tag@ == self@,
    {
        Tag { name: self.name.clone(), fluff: self.fluff.clone() }
    }
}

/// What the user did to one entry of the dictionary during a pass. A field is
/// `None`, or `false`, where its widget was left alone.
#[derive(Debug)]
pub struct TagEdits {
    pub name: Option<String>,
    pub fluff: Option<String>,
    /// Whether the removal of the entry was asked for.
    pub drop: bool,
}

/// The edits of a pass over one entry of the dictionary, as plain values.
pub ghost struct TagEditsView {
    pub name: Option<Seq<char>>,
    pub fluff: Option<Seq<char>>,
    pub drop: bool,
}

impl View for TagEdits {
    type V = TagEditsView;

    open spec fn view(&self) -> TagEditsView {
        TagEditsView {
            name: self.name.deep_view(),
            fluff: self.fluff.deep_view(),
            drop: self.drop,
        }
    }
}

impl DeepView for TagEdits {
    type V = TagEditsView;

    open spec fn deep_view(&self) -> TagEditsView {
        self@
    }
}

/// The pass in which no widget of the entry was touched.
pub open spec fn no_tag_edits() -> TagEditsView {
    TagEditsView { name: None, fluff: None, drop: false }
}

impl Default for TagEdits {
    fn default() -> (edits: TagEdits)
        ensures
            edits@ == no_tag_edits(),
    {
        TagEdits { name: None, fluff: None, drop: false }
    }
}

/// The entry after one pass over it. A new name is written into the entry and
/// nowhere else: references to the old name are left to dangle.
pub open spec fn tag_after(tag: TagView, edits: TagEditsView) -> TagView {
    TagView { name: edited_text(tag.name, edits.name), fluff: edited_text(tag.fluff, edits.fluff) }
}

/// What the user did to the selector of one tag reference during a pass.
#[derive(Clone, Copy, Debug)]
pub struct SelectorEdit {
    /// The entry of the picker's menu that was chosen, by its position in the
    /// dictionary.
    pub picked: Option<usize>,
    /// Whether the removal of the reference was asked for.
    pub remove: bool,
}

/// The selector that was left alone.
pub open spec fn untouched() -> SelectorEdit {
    SelectorEdit { picked: None, remove: false }
}

impl Default for SelectorEdit {
    fn default() -> (edit: SelectorEdit)
        ensures
            edit == untouched(),
    {
        SelectorEdit { picked: None, remove: false }
    }
}

/// The reference after its selector was shown. The picker's menu opens only
/// on a reference that resolves; a choice from it overwrites the reference
/// with the name of the chosen entry. A dangling reference stays as it is.
pub open spec fn selected(name: Seq<char>, edit: SelectorEdit, dictionary: Seq<TagView>) -> Seq<
    char,
> {
    match edit.picked {
        Some(entry) if resolves(dictionary, name) && entry < dictionary.len() =>
            dictionary[entry as int].name,
        _ => name,
    }
}

/// What the selector of a reference shows: the name of the tag that the
/// reference resolves to, which is the reference itself, or else a marker
/// that holds the dangling reference.
pub open spec fn selector_label(name: Seq<char>, dictionary: Seq<TagView>) -> Seq<char> {
    if resolves(dictionary, name) {
        name
    } else {
        "!!! Invalid Tag ID: "@ + name + " !!!"@
    }
}

/// The edit that belongs to the reference at `slot`: the one at that position
/// where the pass recorded one, else none.
pub open spec fn selector_at(edits: Seq<SelectorEdit>, slot: int) -> SelectorEdit {
    if 0 <= slot < edits.len() {
        edits[slot]
    } else {
        untouched()
    }
}

/// Among the first `count` positions, the last one whose mark is set. A pass
/// records one position per sequence for removal, so of several requests the
/// last one counts.
pub open spec fn last_marked(marks: Seq<bool>, count: nat) -> Option<int>
    decreases count,
{
    if count == 0 {
        None
    } else if count <= marks.len() && marks[count - 1] {
        Some(count - 1)
    } else {
        last_marked(marks, (count - 1) as nat)
    }
}

/// The removal marks of a sequence of selector edits.
pub open spec fn removal_marks(edits: Seq<SelectorEdit>) -> Seq<bool> {
    Seq::new(edits.len(), |slot: int| edits[slot].remove)
}

/// The references of an entity after one pass: each selector is applied to its
/// reference, then the reference recorded for removal leaves, then "Add Tag"
/// appends a reference to the first tag of the dictionary, if it has one.
pub open spec fn edited_tags(
    tags: Seq<Seq<char>>,
    edits: Seq<SelectorEdit>,
    add: bool,
    dictionary: Seq<TagView>,
) -> Seq<Seq<char>> {
    let chosen = Seq::new(
        tags.len(),
        |slot: int| selected(tags[slot], selector_at(edits, slot), dictionary),
    );
    let kept = match last_marked(removal_marks(edits), tags.len()) {
        Some(slot) => chosen.remove(slot),
        None => chosen,
    };
    if add && dictionary.len() > 0 {
        kept.push(dictionary[0].name)
    } else {
        kept
    }
}

/// `last_marked` names a marked position that no marked position follows, and
/// names none only where no position is marked.
pub proof fn lemma_last_marked(marks: Seq<bool>, count: nat)
    ensures
        match last_marked(marks, count) {
            Some(at) => {
                &&& 0 <= at < count
                &&& at < marks.len()
                &&& marks[at]
                &&& forall|later: int| at < later < count && later < marks.len() ==> !marks[later]
            },
            None => forall|at: int| 0 <= at < count && at < marks.len() ==> !marks[at],
        },
    decreases count,
{
    if count > 0 && !(count <= marks.len() && marks[count - 1]) {
        lemma_last_marked(marks, (count - 1) as nat);
    }
}

/// Where no selector was touched, the references stay as they are but for
/// "Add Tag", which appends a reference to the first tag of the dictionary, or
/// nothing where the dictionary is empty.
pub proof fn lemma_selectors_untouched(tags: Seq<Seq<char>>, add: bool, dictionary: Seq<TagView>)
    ensures
        edited_tags(tags, Seq::empty(), add, dictionary) == if add && dictionary.len() > 0 {
            tags.push(dictionary[0].name)
        } else {
            tags
        },
{
    let edits = Seq::<SelectorEdit>::empty();
    lemma_last_marked(removal_marks(edits), tags.len());
    assert(Seq::new(
        tags.len(),
        |slot: int| selected(tags[slot], selector_at(edits, slot), dictionary),
    ) =~= tags);
}

impl Tag {
    /// Applies what the user did to this entry of the dictionary during one
    /// pass, and says whether the entry is to be dropped once the pass over
    /// the dictionary is done.
    pub fn editable_ui(&mut self, edits: &TagEdits) -> (drop: bool)
        ensures
            final(self)@ == tag_after(old(self)@, edits@),
            drop == edits.drop,
    {
        edit_text(&mut self.name, &edits.name);
        edit_text(&mut self.fluff, &edits.fluff);
        edits.drop
    }

    /// What the selector of the reference `tag_name` shows.
    pub fn selector_label(tag_name: &str, tag_db: &TagLookup) -> (label: String)
        ensures
            label@ == selector_label(tag_name@, tag_db@),
    {
        match tag_db.resolve(tag_name) {
            Some(tag) => {
                proof {
                    lemma_lookup_view(tag_db@);
                }
                tag.name.clone()
            },
            None => {
                let mut label = "!!! Invalid Tag ID: ".to_owned();
                label.append(tag_name);
                label.append(" !!!");
                label
            },
        }
    }

    /// Applies what the user did to the selector of one reference, and says
    /// whether the reference is to be removed from its sequence once the pass
    /// over that sequence is done.
    pub fn selector_ui(tag_name: &mut TagId, edit: &SelectorEdit, tag_db: &TagLookup) -> (remove:
        bool)
        ensures
            final(tag_name)@ == selected(old(tag_name)@, *edit, tag_db@),
            remove == edit.remove,
    {
        if let Some(entry) = edit.picked {
            let entries = tag_db.entries();
            if entry < entries.len() && tag_db.resolve(tag_name.as_str()).is_some() {
                *tag_name = entries[entry].name.clone();
            }
        }
        edit.remove
    }

    /// Applies one pass to the references of an entity: the selectors in
    /// order, the one removal that the pass recorded, and "Add Tag".
    pub fn edit_references(
        tags: &mut Vec<TagId>,
        edits: &Vec<SelectorEdit>,
        add: bool,
        tag_db: &TagLookup,
    )
        ensures
            final(tags).deep_view() == edited_tags(old(tags).deep_view(), edits@, add, tag_db@),
    {
        let n: usize = tags.len();
        let mut removed: Option<usize> = None;
        let mut slot: usize = 0;
        while slot < n
            invariant
                slot <= n,
                n == tags.len(),
                n == old(tags).len(),
                forall|k: int|
                    0 <= k < slot ==> (#[trigger] tags[k])@ == selected(
                        old(tags)[k]@,
                        selector_at(edits@, k),
                        tag_db@,
                    ),
                forall|k: int| slot <= k < n ==> #[trigger] tags[k] == old(tags)[k],
                match removed {
                    Some(at) => last_marked(removal_marks(edits@), slot as nat) == Some(at as int),
                    None => last_marked(removal_marks(edits@), slot as nat) is None,
                },
            decreases n - slot,
        {
            if slot < edits.len() {
                let remove = Tag::selector_ui(&mut tags[slot], &edits[slot], tag_db);
                if remove {
                    removed = Some(slot);
                }
            }
            slot = slot + 1;
        }
        let ghost chosen = tags.deep_view();
        proof {
            lemma_last_marked(removal_marks(edits@), n as nat);
        }
        if let Some(at) = removed {
            tags.remove(at);
            assert(tags.deep_view() =~= chosen.remove(at as int));
        }
        let entries = tag_db.entries();
        if add && entries.len() > 0 {
            let ghost kept = tags.deep_view();
            tags.push(entries[0].name.clone());
            assert(tags.deep_view() =~= kept.push(tag_db@[0].name));
        }
    }
}

} // verus!
