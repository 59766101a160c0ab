//! The order of tag names, and the stable sort of a dictionary by name.

use vstd::prelude::*;
use vstd::string::StrSliceExecFns;
use crate::app_data::tags::{Tag, TagView};

verus! {

/// Names are ordered as text is: character by character by code point, a
/// proper prefix before the longer name.
pub open spec fn name_le(a: Seq<char>, b: Seq<char>) -> bool
    decreases a.len(),
{
    if a.len() == 0 {
        true
    } else if b.len() == 0 {
        false
    } else if a[0] == b[0] {
        name_le(a.drop_first(), b.drop_first())
    } else {
        (a[0] as u32) < (b[0] as u32)
    }
}

pub proof fn lemma_name_le_reflexive(a: Seq<char>)
    ensures
        name_le(a, a),
    decreases a.len(),
{
    if a.len() > 0 {
        lemma_name_le_reflexive(a.drop_first());
    }
}

pub proof fn lemma_name_le_total(a: Seq<char>, b: Seq<char>)
    ensures
        name_le(a, b) || name_le(b, a),
    decreases a.len(),
{
    if a.len() > 0 && b.len() > 0 {
        if a[0] == b[0] {
            lemma_name_le_total(a.drop_first(), b.drop_first());
        } else {
            vstd::utf8::char_u32_cast(a[0], a[0] as u32);
            vstd::utf8::char_u32_cast(b[0], b[0] as u32);
        }
    }
}

pub proof fn lemma_name_le_transitive(a: Seq<char>, b: Seq<char>, c: Seq<char>)
    requires
        name_le(a, b),
        name_le(b, c),
    ensures
        name_le(a, c),
    decreases a.len(),
{
    if a.len() > 0 && b.len() > 0 && c.len() > 0 && a[0] == b[0] && b[0] == c[0] {
        lemma_name_le_transitive(a.drop_first(), b.drop_first(), c.drop_first());
    }
}

pub proof fn lemma_name_le_antisymmetric(a: Seq<char>, b: Seq<char>)
    requires
        name_le(a, b),
        name_le(b, a),
    ensures
        a == b,
    decreases a.len(),
{
    if a.len() > 0 && b.len() > 0 {
        lemma_name_le_antisymmetric(a.drop_first(), b.drop_first());
        assert(a =~= seq![a[0]] + a.drop_first());
        assert(b =~= seq![b[0]] + b.drop_first());
    } else {
        assert(a =~= b);
    }
}

/// Whether the name `a` comes before or with the name `b`.
pub fn name_at_most(a: &str, b: &str) -> (le: bool)
    ensures
        le == name_le(a@, b@),
{
    let n: usize = a.unicode_len();
    let m: usize = b.unicode_len();
    let mut i: usize = 0;
    proof {
        assert(a@.skip(0) =~= a@);
        assert(b@.skip(0) =~= b@);
    }
    while i < n && i < m
        invariant
            i <= n,
            i <= m,
            n == a@.len(),
            m == b@.len(),
            name_le(a@, b@) == name_le(a@.skip(i as int), b@.skip(i as int)),
        decreases n - i,
    {
        let x: char = a.get_char(i);
        let y: char = b.get_char(i);
        proof {
            assert(a@.skip(i as int).drop_first() =~= a@.skip(i + 1));
            assert(b@.skip(i as int).drop_first() =~= b@.skip(i + 1));
        }
        if x != y {
            return (x as u32) < (y as u32);
        }
        i = i + 1;
    }
    i == n
}

/// No entry of `tags` is followed by one whose name comes strictly before its own.
pub open spec fn sorted_by_name(tags: Seq<TagView>) -> bool {
    forall|i: int, j: int|
        0 <= i < j < tags.len() ==> name_le((#[trigger] tags[i]).name, (#[trigger] tags[j]).name)
}

/// The entries of `tags` that bear `name`, in the order in which they stand.
pub open spec fn named(tags: Seq<TagView>, name: Seq<char>) -> Seq<TagView> {
    tags.filter(|tag: TagView| tag.name == name)
}

/// Where a tag called `name` joins a sorted dictionary: behind the last entry
/// whose name does not come after `name`.
pub open spec fn insert_position(sorted: Seq<TagView>, name: Seq<char>) -> int
    decreases sorted.len(),
{
    if sorted.len() == 0 {
        0
    } else if name_le(sorted.last().name, name) {
        sorted.len() as int
    } else {
        insert_position(sorted.drop_last(), name)
    }
}

/// The dictionary sorted by name, entries of equal name in their former order:
/// each entry in turn joins the sorted entries before it.
pub open spec fn sort_by_name(tags: Seq<TagView>) -> Seq<TagView>
    decreases tags.len(),
{
    if tags.len() == 0 {
        Seq::empty()
    } else {
        let rest = sort_by_name(tags.drop_last());
        rest.insert(insert_position(rest, tags.last().name), tags.last())
    }
}

/// In a sorted dictionary the insert position parts the names that do not come
/// after `name` from those that do.
pub proof fn lemma_insert_position(sorted: Seq<TagView>, name: Seq<char>)
    requires
        sorted_by_name(sorted),
    ensures
        0 <= insert_position(sorted, name) <= sorted.len(),
        forall|i: int|
            0 <= i < insert_position(sorted, name) ==> name_le((#[trigger] sorted[i]).name, name),
        forall|i: int|
            insert_position(sorted, name) <= i < sorted.len() ==> !name_le(
                (#[trigger] sorted[i]).name,
                name,
            ),
    decreases sorted.len(),
{
    if sorted.len() == 0 {
    } else if name_le(sorted.last().name, name) {
        assert forall|i: int| 0 <= i < sorted.len() implies name_le(
            (#[trigger] sorted[i]).name,
            name,
        ) by {
            if i < sorted.len() - 1 {
                assert(name_le(sorted[i].name, sorted[sorted.len() - 1].name));
                lemma_name_le_transitive(sorted[i].name, sorted.last().name, name);
            }
        }
    } else {
        let front = sorted.drop_last();
        assert forall|i: int, j: int| 0 <= i < j < front.len() implies name_le(
            (#[trigger] front[i]).name,
            (#[trigger] front[j]).name,
        ) by {
            assert(front[i] == sorted[i] && front[j] == sorted[j]);
        }
        lemma_insert_position(front, name);
        let at = insert_position(front, name);
        assert forall|i: int| 0 <= i < at implies name_le((#[trigger] sorted[i]).name, name) by {
            assert(front[i] == sorted[i]);
        }
        assert forall|i: int| at <= i < sorted.len() implies !name_le(
            (#[trigger] sorted[i]).name,
            name,
        ) by {
            if i < sorted.len() - 1 {
                assert(front[i] == sorted[i]);
            }
        }
    }
}

/// One step of the sort: a tag that joins a sorted dictionary at its insert
/// position leaves it sorted, and stands last among the entries of its name.
proof fn lemma_insert_sorted(sorted: Seq<TagView>, tag: TagView)
    requires
        sorted_by_name(sorted),
    ensures
        sorted_by_name(sorted.insert(insert_position(sorted, tag.name), tag)),
        forall|name: Seq<char>| #[trigger]
            named(sorted.insert(insert_position(sorted, tag.name), tag), name) == if tag.name
                == name {
                named(sorted, name).push(tag)
            } else {
                named(sorted, name)
            },
{
    let at = insert_position(sorted, tag.name);
    let joined = sorted.insert(at, tag);
    lemma_insert_position(sorted, tag.name);
    sorted.insert_ensures(at, tag);
    assert forall|i: int, j: int| 0 <= i < j < joined.len() implies name_le(
        (#[trigger] joined[i]).name,
        (#[trigger] joined[j]).name,
    ) by {
        if j < at {
            assert(joined[i] == sorted[i] && joined[j] == sorted[j]);
        } else if j == at {
            assert(joined[i] == sorted[i]);
        } else if i < at {
            assert(joined[i] == sorted[i] && joined[j] == sorted[j - 1]);
        } else if i == at {
            assert(joined[j] == sorted[j - 1]);
            lemma_name_le_total(sorted[j - 1].name, tag.name);
        } else {
            assert(joined[i] == sorted[i - 1] && joined[j] == sorted[j - 1]);
        }
    }
    assert forall|name: Seq<char>| #[trigger]
        named(joined, name) == if tag.name == name {
            named(sorted, name).push(tag)
        } else {
            named(sorted, name)
        } by {
        let bears = |entry: TagView| entry.name == name;
        let front = sorted.subrange(0, at);
        let back = sorted.subrange(at, sorted.len() as int);
        assert(sorted =~= front + back);
        Seq::filter_distributes_over_add(front, back, bears);
        Seq::filter_distributes_over_add(front.push(tag), back, bears);
        front.lemma_filter_push(tag, bears);
        if tag.name == name {
            assert forall|i: int| 0 <= i < back.len() implies !bears(#[trigger] back[i]) by {
                assert(back[i] == sorted[at + i]);
                lemma_name_le_reflexive(name);
            }
            assert(back.all(|entry: TagView| !bears(entry)));
            back.lemma_all_neg_filter_empty(bears);
            assert(back.filter(bears) =~= Seq::<TagView>::empty());
            assert(front.filter(bears).push(tag) + back.filter(bears) =~= (front.filter(bears)
                + back.filter(bears)).push(tag));
        }
    }
}

/// The sort by name yields a sorted dictionary that holds the same entries as
/// often as the dictionary before it, and in which the entries of each name
/// stand in the order in which they stood there: the sort is stable.
pub proof fn lemma_sort_by_name(tags: Seq<TagView>)
    ensures
        sort_by_name(tags).len() == tags.len(),
        sort_by_name(tags).to_multiset() == tags.to_multiset(),
        sorted_by_name(sort_by_name(tags)),
        forall|name: Seq<char>| #[trigger] named(sort_by_name(tags), name) == named(tags, name),
    decreases tags.len(),
{
    if tags.len() == 0 {
        assert(sort_by_name(tags) =~= tags);
    } else {
        let front = tags.drop_last();
        let rest = sort_by_name(front);
        lemma_sort_by_name(front);
        lemma_insert_position(rest, tags.last().name);
        rest.insert_ensures(insert_position(rest, tags.last().name), tags.last());
        lemma_insert_sorted(rest, tags.last());
        assert(tags =~= front.push(tags.last()));
        vstd::seq_lib::to_multiset_insert(
            rest,
            insert_position(rest, tags.last().name),
            tags.last(),
        );
        vstd::seq_lib::to_multiset_build(front, tags.last());
        assert forall|name: Seq<char>| #[trigger]
            named(sort_by_name(tags), name) == named(tags, name) by {
            assert(tags =~= front.push(tags.last()));
            front.lemma_filter_push(tags.last(), |entry: TagView| entry.name == name);
            assert(named(rest, name) == named(front, name));
        }
    }
}

/// Sorts the dictionary by name; entries of equal name keep their order.
pub fn sort_tags(tags: &mut Vec<Tag>)
    ensures
        final(tags).deep_view() == sort_by_name(old(tags).deep_view()),
        sorted_by_name(final(tags).deep_view()),
        final(tags).len() == old(tags).len(),
        final(tags).deep_view().to_multiset() == old(tags).deep_view().to_multiset(),
        forall|name: Seq<char>| #[trigger]
            named(final(tags).deep_view(), name) == named(old(tags).deep_view(), name),
{
    proof {
        lemma_sort_by_name(tags.deep_view());
    }
    let mut sorted: Vec<Tag> = Vec::new();
    let n: usize = tags.len();
    let mut i: usize = 0;
    assert(tags.deep_view().take(0) =~= Seq::<TagView>::empty());
    while i < n
        invariant
            i <= n,
            n == tags.len(),
            *tags == *old(tags),
            sorted.deep_view() == sort_by_name(tags.deep_view().take(i as int)),
        decreases n - i,
    {
        let tag: Tag = tags[i].clone();
        let ghost before = sorted.deep_view();
        let mut at: usize = sorted.len();
        assert(before.take(at as int) =~= before);
        while at > 0 && !name_at_most(sorted[at - 1].name.as_str(), tag.name.as_str())
            invariant
                at <= sorted.len(),
                before == sorted.deep_view(),
                insert_position(before, tag@.name) == insert_position(
                    before.take(at as int),
                    tag@.name,
                ),
            decreases at,
        {
            assert(before.take(at as int).drop_last() =~= before.take(at - 1));
            at = at - 1;
        }
        sorted.insert(at, tag);
        proof {
            let upto = tags.deep_view().take(i + 1);
            assert(upto.drop_last() =~= tags.deep_view().take(i as int));
            assert(upto.last() == tags[i as int]@);
            assert(sorted.deep_view() =~= before.insert(at as int, tags[i as int]@));
        }
        i = i + 1;
    }
    assert(tags.deep_view().take(n as int) =~= tags.deep_view());
    *tags = sorted;
}

} // verus!
