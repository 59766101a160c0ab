//! Documents: the values that a catalog is stored as.
//!
//! A document is a tree of JSON values. This module holds the values, how a
//! member is found in an object, and how the fields of an entry are read from
//! and written to members. Turning a document into text and text into a
//! document is the work of a JSON parser and is not done here.

use vstd::prelude::*;

verus! {

/// A value of a document.
#[derive(Debug, PartialEq, Eq)]
pub enum Json {
    Null,
    Bool(bool),
    /// A whole number.
    Int(i64),
    /// A number that is no `i64`.
    Real,
    Str(String),
    Array(Vec<Json>),
    /// The members of an object, in the order in which they are written.
    Object(Vec<Member>),
}

/// One member of an object.
#[derive(Debug, PartialEq, Eq)]
pub struct Member {
    pub key: String,
    pub value: Json,
}

/// A value of a document, as plain values.
pub ghost enum JsonView {
    Null,
    Bool(bool),
    Int(i64),
    Real,
    Str(Seq<char>),
    Array(Seq<JsonView>),
    Object(Seq<MemberView>),
}

/// One member of an object, as plain values.
pub ghost struct MemberView {
    pub key: Seq<char>,
    pub value: JsonView,
}

/// What a value of a document holds.
pub open spec fn json_view(doc: Json) -> JsonView
    decreases doc,
{
    match doc {
        Json::Null => JsonView::Null,
        Json::Bool(truth) => JsonView::Bool(truth),
        Json::Int(number) => JsonView::Int(number),
        Json::Real => JsonView::Real,
        Json::Str(text) => JsonView::Str(text@),
        Json::Array(items) => JsonView::Array(
            Seq::new(
                items@.len(),
                |at: int|
                    if 0 <= at < items@.len() {
                        json_view(items@[at])
                    } else {
                        JsonView::Null
                    },
            ),
        ),
        Json::Object(members) => JsonView::Object(
            Seq::new(
                members@.len(),
                |at: int|
                    if 0 <= at < members@.len() {
                        MemberView { key: members@[at].key@, value: json_view(members@[at].value) }
                    } else {
                        MemberView { key: Seq::empty(), value: JsonView::Null }
                    },
            ),
        ),
    }
}

impl DeepView for Json {
    type V = JsonView;

    open spec fn deep_view(&self) -> JsonView {
        json_view(*self)
    }
}

impl DeepView for Member {
    type V = MemberView;

    open spec fn deep_view(&self) -> MemberView {
        MemberView { key: self.key@, value: self.value.deep_view() }
    }
}

/// The view of an object is made of the views of its members.
pub proof fn lemma_object_view(members: Vec<Member>)
    ensures
        Json::Object(members).deep_view() == JsonView::Object(members.deep_view()),
{
    assert(json_view(Json::Object(members))->Object_0 =~= members.deep_view());
}

/// The view of an array is made of the views of its items.
pub proof fn lemma_array_view(items: Vec<Json>)
    ensures
        Json::Array(items).deep_view() == JsonView::Array(items.deep_view()),
{
    assert(json_view(Json::Array(items))->Array_0 =~= items.deep_view());
}

/// The member with the given key and value.
pub open spec fn member(key: Seq<char>, value: JsonView) -> MemberView {
    MemberView { key, value }
}

/// The value of the first member that has the key, if any has.
pub open spec fn member_named(members: Seq<MemberView>, key: Seq<char>) -> Option<JsonView>
    decreases members.len(),
{
    if members.len() == 0 {
        None
    } else if members[0].key == key {
        Some(members[0].value)
    } else {
        member_named(members.drop_first(), key)
    }
}

/// A member that no member of the same key precedes is the one that is found.
pub proof fn lemma_member_found(members: Seq<MemberView>, key: Seq<char>, at: int)
    requires
        0 <= at < members.len(),
        members[at].key == key,
        forall|before: int| 0 <= before < at ==> (#[trigger] members[before]).key != key,
    ensures
        member_named(members, key) == Some(members[at].value),
    decreases at,
{
    if at > 0 {
        let rest = members.drop_first();
        assert(members[0].key != key);
        assert forall|before: int| 0 <= before < at - 1 implies (#[trigger] rest[before]).key
            != key by {
            assert(rest[before] == members[before + 1]);
        }
        lemma_member_found(rest, key, at - 1);
    }
}

/// Where no member has the key, none is found.
pub proof fn lemma_member_missing(members: Seq<MemberView>, key: Seq<char>)
    requires
        forall|at: int| 0 <= at < members.len() ==> (#[trigger] members[at]).key != key,
    ensures
        member_named(members, key) is None,
    decreases members.len(),
{
    if members.len() > 0 {
        let rest = members.drop_first();
        assert(members[0].key != key);
        assert forall|at: int| 0 <= at < rest.len() implies (#[trigger] rest[at]).key != key by {
            assert(rest[at] == members[at + 1]);
        }
        lemma_member_missing(rest, key);
    }
}

/// A member of another key, wherever it stands among the members, does not
/// change what is found under a key.
pub proof fn lemma_other_member_ignored(
    members: Seq<MemberView>,
    at: int,
    other: MemberView,
    key: Seq<char>,
)
    requires
        0 <= at <= members.len(),
        other.key != key,
    ensures
        member_named(members.insert(at, other), key) == member_named(members, key),
    decreases at,
{
    let widened = members.insert(at, other);
    if at == 0 {
        assert(widened.drop_first() =~= members);
    } else {
        assert(widened[0] == members[0]);
        assert(widened.drop_first() =~= members.drop_first().insert(at - 1, other));
        lemma_other_member_ignored(members.drop_first(), at - 1, other, key);
    }
}

/// A text of an object: absent it is empty, and nothing but a string will do.
pub open spec fn text_field(members: Seq<MemberView>, key: Seq<char>) -> Option<Seq<char>> {
    match member_named(members, key) {
        None => Some(Seq::empty()),
        Some(JsonView::Str(text)) => Some(text),
        Some(_) => None,
    }
}

/// A number of an object: absent it is zero, and nothing but a whole number
/// that an `i32` holds will do.
pub open spec fn number_field(members: Seq<MemberView>, key: Seq<char>) -> Option<i32> {
    match member_named(members, key) {
        None => Some(0),
        Some(JsonView::Int(number)) if i32::MIN <= number <= i32::MAX => Some(number as i32),
        Some(_) => None,
    }
}

/// A number of an object that may be left out: absent or null it is `None`.
pub open spec fn optional_number_field(members: Seq<MemberView>, key: Seq<char>) -> Option<
    Option<i32>,
> {
    match member_named(members, key) {
        None => Some(None),
        Some(JsonView::Null) => Some(None),
        Some(JsonView::Int(number)) if i32::MIN <= number <= i32::MAX => Some(
            Some(number as i32),
        ),
        Some(_) => None,
    }
}

/// The texts of an array of strings, if strings are all it holds.
pub open spec fn texts_of(items: Seq<JsonView>) -> Option<Seq<Seq<char>>> {
    if forall|at: int| 0 <= at < items.len() ==> (#[trigger] items[at]) is Str {
        Some(Seq::new(items.len(), |at: int| items[at]->Str_0))
    } else {
        None
    }
}

/// A list of texts of an object: absent it is empty, and nothing but an array
/// of strings will do.
pub open spec fn texts_field(members: Seq<MemberView>, key: Seq<char>) -> Option<Seq<Seq<char>>> {
    match member_named(members, key) {
        None => Some(Seq::empty()),
        Some(JsonView::Array(items)) => texts_of(items),
        Some(_) => None,
    }
}

/// The items of an array, each read by `read`, if all of them can be read.
pub open spec fn each_read<T>(items: Seq<JsonView>, read: spec_fn(JsonView) -> Option<T>) -> Option<
    Seq<T>,
> {
    if forall|at: int| 0 <= at < items.len() ==> read(#[trigger] items[at]) is Some {
        Some(Seq::new(items.len(), |at: int| read(items[at])->0))
    } else {
        None
    }
}

/// A list of texts as a document holds it: an array of strings.
pub open spec fn stored_texts(texts: Seq<Seq<char>>) -> JsonView {
    JsonView::Array(texts.map_values(|text: Seq<char>| JsonView::Str(text)))
}

/// A number that may be left out as a document holds it: `null` in place of
/// the number that is not there.
pub open spec fn stored_optional_number(number: Option<i32>) -> JsonView {
    match number {
        Some(present) => JsonView::Int(present as i64),
        None => JsonView::Null,
    }
}

/// A list of texts is read back as it was.
pub proof fn lemma_texts_round_trip(texts: Seq<Seq<char>>)
    ensures
        texts_of(stored_texts(texts)->Array_0) == Some(texts),
{
    let items = texts.map_values(|text: Seq<char>| JsonView::Str(text));
    assert(Seq::new(items.len(), |at: int| items[at]->Str_0) =~= texts);
}

impl Member {
    /// A member that holds a text.
    pub fn text(key: &str, text: &String) -> (made: Member)
        ensures
            made.deep_view() == member(key@, JsonView::Str(text@)),
    {
        Member { key: key.to_owned(), value: Json::Str(text.clone()) }
    }

    /// A member that holds a number.
    pub fn number(key: &str, number: i32) -> (made: Member)
        ensures
            made.deep_view() == member(key@, JsonView::Int(number as i64)),
    {
        Member { key: key.to_owned(), value: Json::Int(number as i64) }
    }

    /// A member that holds a number, or `null` where there is none.
    pub fn optional_number(key: &str, number: Option<i32>) -> (made: Member)
        ensures
            made.deep_view() == member(key@, stored_optional_number(number)),
    {
        let value = match number {
            Some(present) => Json::Int(present as i64),
            None => Json::Null,
        };
        Member { key: key.to_owned(), value }
    }

    /// A member that holds an array.
    pub fn array(key: &str, items: Vec<Json>) -> (made: Member)
        ensures
            made.deep_view() == member(key@, JsonView::Array(items.deep_view())),
    {
        proof {
            lemma_array_view(items);
        }
        Member { key: key.to_owned(), value: Json::Array(items) }
    }

    /// A member that holds a list of texts.
    pub fn texts(key: &str, texts: &Vec<String>) -> (made: Member)
        ensures
            made.deep_view() == member(key@, stored_texts(texts.deep_view())),
    {
        let mut items: Vec<Json> = Vec::new();
        let n: usize = texts.len();
        let mut at: usize = 0;
        while at < n
            invariant
                at <= n,
                n == texts.len(),
                items.len() == at,
                forall|k: int| 0 <= k < at ==> (#[trigger] items[k]).deep_view() == JsonView::Str(
                    texts[k]@,
                ),
            decreases n - at,
        {
            items.push(Json::Str(texts[at].clone()));
            at = at + 1;
        }
        proof {
            lemma_array_view(items);
            assert(items.deep_view() =~= texts.deep_view().map_values(
                |text: Seq<char>| JsonView::Str(text),
            ));
        }
        Member { key: key.to_owned(), value: Json::Array(items) }
    }
}

/// Finds the value of the first member that has the key.
pub fn find_member<'a>(members: &'a Vec<Member>, key: &str) -> (found: Option<&'a Json>)
    ensures
        found.deep_view() == member_named(members.deep_view(), key@),
{
    let wanted = key.to_owned();
    let n: usize = members.len();
    let mut at: usize = 0;
    assert(members.deep_view().skip(0) =~= members.deep_view());
    while at < n
        invariant
            at <= n,
            n == members.len(),
            wanted@ == key@,
            member_named(members.deep_view(), key@) == member_named(
                members.deep_view().skip(at as int),
                key@,
            ),
        decreases n - at,
    {
        if members[at].key == wanted {
            return Some(&members[at].value);
        }
        assert(members.deep_view().skip(at as int).drop_first() =~= members.deep_view().skip(
            at + 1,
        ));
        at = at + 1;
    }
    None
}

/// Reads a text of an object.
pub fn load_text(members: &Vec<Member>, key: &str) -> (text: Option<String>)
    ensures
        text.deep_view() == text_field(members.deep_view(), key@),
{
    match find_member(members, key) {
        None => Some(String::new()),
        Some(Json::Str(text)) => Some(text.clone()),
        Some(_) => None,
    }
}

/// Reads a number of an object.
pub fn load_number(members: &Vec<Member>, key: &str) -> (number: Option<i32>)
    ensures
        number == number_field(members.deep_view(), key@),
{
    match find_member(members, key) {
        None => Some(0),
        Some(Json::Int(number)) => {
            if -2147483648 <= *number && *number <= 2147483647 {
                Some(*number as i32)
            } else {
                None
            }
        },
        Some(_) => None,
    }
}

/// Reads a number of an object that may be left out.
pub fn load_optional_number(members: &Vec<Member>, key: &str) -> (number: Option<Option<i32>>)
    ensures
        number == optional_number_field(members.deep_view(), key@),
{
    match find_member(members, key) {
        None => Some(None),
        Some(Json::Null) => Some(None),
        Some(Json::Int(number)) => {
            if -2147483648 <= *number && *number <= 2147483647 {
                Some(Some(*number as i32))
            } else {
                None
            }
        },
        Some(_) => None,
    }
}

/// Reads a list of texts of an object.
pub fn load_texts(members: &Vec<Member>, key: &str) -> (texts: Option<Vec<String>>)
    ensures
        texts.deep_view() == texts_field(members.deep_view(), key@),
{
    match find_member(members, key) {
        None => {
            let texts: Vec<String> = Vec::new();
            assert(texts.deep_view() =~= Seq::<Seq<char>>::empty());
            Some(texts)
        },
        Some(Json::Array(items)) => {
            proof {
                lemma_array_view(*items);
            }
            let mut texts: Vec<String> = Vec::new();
            let n: usize = items.len();
            let mut at: usize = 0;
            while at < n
                invariant
                    at <= n,
                    n == items.len(),
                    texts.len() == at,
                    member_named(members.deep_view(), key@) == Some(
                        JsonView::Array(items.deep_view()),
                    ),
                    forall|k: int| 0 <= k < at ==> (#[trigger] items.deep_view()[k]) is Str,
                    forall|k: int|
                        0 <= k < at ==> (#[trigger] texts[k])@ == items.deep_view()[k]->Str_0,
                decreases n - at,
            {
                match &items[at] {
                    Json::Str(text) => {
                        texts.push(text.clone());
                    },
                    _ => {
                        assert(!(items.deep_view()[at as int] is Str));
                        return None;
                    },
                }
                at = at + 1;
            }
            assert(texts.deep_view() =~= Seq::new(
                items.deep_view().len(),
                |k: int| items.deep_view()[k]->Str_0,
            ));
            Some(texts)
        },
        Some(_) => None,
    }
}

} // verus!
