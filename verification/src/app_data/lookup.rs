//! The lookup view: the tag dictionary as one editor pass sees it, with each
//! name resolved to the last entry that bears it.

use vstd::prelude::*;
use indexmap::IndexMap;
use crate::app_data::tags::{Tag, TagView};

verus! {

/// `indexmap::IndexMap`, a hash map that keeps its entries in the order in
/// which their keys were first inserted. Verus sees nothing inside it: what it
/// holds is spoken of through [`index_contents`].
#[verifier::external_type_specification]
#[verifier::external_body]
#[verifier::reject_recursive_types(K)]
#[verifier::reject_recursive_types(V)]
#[verifier::reject_recursive_types(S)]
pub struct ExIndexMap<K, V, S>(IndexMap<K, V, S>);

/// The tags that an index holds, each under the name it was inserted with.
pub uninterp spec fn index_contents(index: IndexMap<String, Tag>) -> Map<Seq<char>, TagView>;

/// `IndexMap::new`: believed to make a map that holds nothing.
#[verifier::external_body]
fn index_new() -> (made: IndexMap<String, Tag>)
    ensures
        index_contents(made).dom() == Set::<Seq<char>>::empty(),
{
    IndexMap::new()
}

/// `IndexMap::insert`: believed to put `tag` under `name`, in place of the tag
/// that stood under an equal name if there was one, and to leave every other
/// name as it was.
#[verifier::external_body]
fn index_insert(index: &mut IndexMap<String, Tag>, name: String, tag: Tag)
    ensures
        index_contents(*final(index)) == index_contents(*old(index)).insert(name@, tag@),
{
    index.insert(name, tag);
}

/// `IndexMap::get`: believed to hand out the tag that stands under `name`, and
/// `None` exactly where no tag does.
#[verifier::external_body]
fn index_get<'a>(index: &'a IndexMap<String, Tag>, name: &str) -> (found: Option<&'a Tag>)
    ensures
        found is Some <==> index_contents(*index).contains_key(name@),
        found matches Some(tag) ==> tag@ == index_contents(*index)[name@],
{
    index.get(name)
}

/// The mapping from names to tags that a dictionary gives rise to: its entries
/// are entered in order, so that of two entries of one name the later stays.
pub open spec fn lookup_view(tags: Seq<TagView>) -> Map<Seq<char>, TagView>
    decreases tags.len(),
{
    if tags.len() == 0 {
        Map::empty()
    } else {
        lookup_view(tags.drop_last()).insert(tags.last().name, tags.last())
    }
}

/// The position of the last entry of `tags` that bears `name`, if any does.
pub open spec fn last_named(tags: Seq<TagView>, name: Seq<char>) -> Option<int>
    decreases tags.len(),
{
    if tags.len() == 0 {
        None
    } else if tags.last().name == name {
        Some(tags.len() - 1)
    } else {
        last_named(tags.drop_last(), name)
    }
}

/// Whether a reference to `name` finds a tag in the dictionary; one that does
/// not is dangling.
pub open spec fn resolves(tags: Seq<TagView>, name: Seq<char>) -> bool {
    lookup_view(tags).contains_key(name)
}

/// `last_named` names an entry of that name which no entry of that name
/// follows, and names none only where no entry bears the name.
pub proof fn lemma_last_named(tags: Seq<TagView>, name: Seq<char>)
    ensures
        match last_named(tags, name) {
            Some(at) => {
                &&& 0 <= at < tags.len()
                &&& tags[at].name == name
                &&& forall|j: int| at < j < tags.len() ==> (#[trigger] tags[j]).name != name
            },
            None => forall|j: int| 0 <= j < tags.len() ==> (#[trigger] tags[j]).name != name,
        },
    decreases tags.len(),
{
    if tags.len() > 0 && tags.last().name != name {
        let front = tags.drop_last();
        lemma_last_named(front, name);
        match last_named(front, name) {
            Some(at) => {
                assert(front[at] == tags[at]);
                assert forall|j: int| at < j < tags.len() implies (#[trigger] tags[j]).name
                    != name by {
                    if j < tags.len() - 1 {
                        assert(front[j] == tags[j]);
                    }
                }
            },
            None => {
                assert forall|j: int| 0 <= j < tags.len() implies (#[trigger] tags[j]).name
                    != name by {
                    if j < tags.len() - 1 {
                        assert(front[j] == tags[j]);
                    }
                }
            },
        }
    }
}

/// The lookup view of a dictionary holds a name exactly where an entry bears
/// it, and under it the last such entry. It holds no more names than the
/// dictionary has entries.
pub proof fn lemma_lookup_view(tags: Seq<TagView>)
    ensures
        lookup_view(tags).dom().finite(),
        lookup_view(tags).len() <= tags.len(),
        forall|name: Seq<char>| #[trigger]
            lookup_view(tags).contains_key(name) <==> last_named(tags, name) is Some,
        forall|name: Seq<char>|
            last_named(tags, name) is Some ==> #[trigger] lookup_view(tags)[name]
                == tags[last_named(tags, name)->0],
        forall|name: Seq<char>|
            last_named(tags, name) is Some ==> (#[trigger] lookup_view(tags)[name]).name == name,
    decreases tags.len(),
{
    if tags.len() > 0 {
        let front = tags.drop_last();
        lemma_lookup_view(front);
        assert forall|name: Seq<char>| last_named(tags, name) is Some implies (
        #[trigger] lookup_view(tags)[name]).name == name by {
            if tags.last().name != name {
                assert(last_named(front, name) is Some);
            }
        }
        assert forall|name: Seq<char>|
            last_named(tags, name) is Some implies #[trigger] lookup_view(tags)[name]
            == tags[last_named(tags, name)->0] by {
            if tags.last().name != name {
                lemma_last_named(front, name);
                assert(front[last_named(front, name)->0] == tags[last_named(front, name)->0]);
            }
        }
    }
}

/// The lookup view of one editor pass: the dictionary's entries in their order,
/// for the tag picker, and an index that resolves a name to its tag.
pub struct TagLookup {
    entries: Vec<Tag>,
    index: IndexMap<String, Tag>,
}

impl View for TagLookup {
    type V = Seq<TagView>;

    /// The dictionary that the view was built from.
    closed spec fn view(&self) -> Seq<TagView> {
        self.entries.deep_view()
    }
}

impl TagLookup {
    /// The index holds the lookup view of the entries.
    #[verifier::type_invariant]
    spec fn indexed(self) -> bool {
        index_contents(self.index) == lookup_view(self.entries.deep_view())
    }

    /// Builds the lookup view of a dictionary.
    pub fn build(tags: &Vec<Tag>) -> (lookup: TagLookup)
        ensures
            lookup@ == tags.deep_view(),
    {
        let mut entries: Vec<Tag> = Vec::new();
        let mut index = index_new();
        let n: usize = tags.len();
        let mut i: usize = 0;
        assert(tags.deep_view().take(0) =~= Seq::<TagView>::empty());
        assert(index_contents(index) =~= Map::empty());
        while i < n
            invariant
                i <= n,
                n == tags.len(),
                entries.deep_view() == tags.deep_view().take(i as int),
                index_contents(index) == lookup_view(tags.deep_view().take(i as int)),
            decreases n - i,
        {
            let tag: Tag = tags[i].clone();
            index_insert(&mut index, tag.name.clone(), tags[i].clone());
            entries.push(tag);
            proof {
                let upto = tags.deep_view().take(i + 1);
                assert(upto.drop_last() =~= tags.deep_view().take(i as int));
                assert(upto.last() == tags[i as int]@);
                assert(entries.deep_view() =~= upto);
            }
            i = i + 1;
        }
        assert(tags.deep_view().take(n as int) =~= tags.deep_view());
        TagLookup { entries, index }
    }

    /// The entries of the dictionary in their order, as the tag picker lists
    /// them: two entries of one name are two entries here.
    pub fn entries(&self) -> (entries: &Vec<Tag>)
        ensures
            entries.deep_view() == self@,
    {
        &self.entries
    }

    /// The tag that a reference to `name` stands for: the last entry of that
    /// name. `None` where the reference is dangling.
    pub fn resolve(&self, name: &str) -> (found: Option<&Tag>)
        ensures
            found is Some <==> resolves(self@, name@),
            found is Some <==> exists|at: int| 0 <= at < self@.len() && self@[at].name == name@,
            found matches Some(tag) ==> tag@ == lookup_view(self@)[name@],
            found matches Some(tag) ==> last_named(self@, name@) matches Some(at) && tag@
                == self@[at],
    {
        proof {
            use_type_invariant(self);
            lemma_lookup_view(self@);
            lemma_last_named(self@, name@);
        }
        index_get(&self.index, name)
    }
}

} // verus!
