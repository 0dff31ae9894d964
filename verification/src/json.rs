//! JSON documents as trees of plain values.

use vstd::prelude::*;

use crate::text::same;

verus! {

/// `serde_json::Value`: a JSON document in memory.
#[verifier::external_type_specification]
#[verifier::external_body]
pub struct ExValue(serde_json::Value);

/// A JSON value. Of numbers it holds those that are not negative and whole.
#[derive(Debug)]
pub enum Json {
    Null,
    Bool(bool),
    Number(Option<u64>),
    Text(String),
    List(Vec<Json>),
    Object(Vec<Member>),
}

/// A member of an object. No key stands in an object twice.
#[derive(Debug)]
pub struct Member {
    pub key: String,
    pub value: Json,
}

/// A JSON value as the contracts see it.
pub enum JsonView {
    Null,
    Bool(bool),
    Number(Option<u64>),
    Text(Seq<char>),
    List(Seq<JsonView>),
    Object(Seq<(Seq<char>, JsonView)>),
}

impl View for Json {
    type V = JsonView;

    open spec fn view(&self) -> JsonView {
        json_view(*self)
    }
}

pub open spec fn json_view(j: Json) -> JsonView
    decreases j,
{
    match j {
        Json::Null => JsonView::Null,
        Json::Bool(b) => JsonView::Bool(b),
        Json::Number(n) => JsonView::Number(n),
        Json::Text(s) => JsonView::Text(s@),
        Json::List(v) => JsonView::List(
            Seq::new(
                v@.len(),
                |i: int|
                    if 0 <= i < v@.len() {
                        json_view(v@[i])
                    } else {
                        JsonView::Null
                    },
            ),
        ),
        Json::Object(v) => JsonView::Object(
            Seq::new(
                v@.len(),
                |i: int|
                    (
                        v@[i].key@,
                        if 0 <= i < v@.len() {
                            json_view(v@[i].value)
                        } else {
                            JsonView::Null
                        },
                    ),
            ),
        ),
    }
}

/// What a `serde_json::Value` holds.
pub uninterp spec fn held(value: serde_json::Value) -> JsonView;

/// What `serde_json::from_slice` makes of some bytes: a document, or the text of
/// the error.
pub uninterp spec fn document(bytes: Seq<u8>) -> Result<JsonView, Seq<char>>;

/// `serde_json::from_slice` at the type `serde_json::Value`: reads a JSON
/// document. Which bytes are one, what it holds, and how the error of any other
/// bytes reads, depends on the bytes alone.
#[verifier::external_body]
fn from_slice(bytes: &Vec<u8>) -> (r: Result<serde_json::Value, String>)
    ensures
        document(bytes@) == match r {
            Ok(v) => Ok::<JsonView, Seq<char>>(held(v)),
            Err(e) => Err::<JsonView, Seq<char>>(e@),
        },
{
    match serde_json::from_slice::<serde_json::Value>(bytes.as_slice()) {
        Ok(v) => Ok(v),
        Err(e) => Err(e.to_string()),
    }
}

/// The outermost layer of a `serde_json::Value`.
enum Layer<'a> {
    Null,
    Bool(bool),
    Number(Option<u64>),
    Text(&'a String),
    List(&'a Vec<serde_json::Value>),
    Object(Vec<(&'a String, &'a serde_json::Value)>),
}

spec fn layer_view(layer: Layer) -> JsonView {
    match layer {
        Layer::Null => JsonView::Null,
        Layer::Bool(b) => JsonView::Bool(b),
        Layer::Number(n) => JsonView::Number(n),
        Layer::Text(s) => JsonView::Text(s@),
        Layer::List(v) => JsonView::List(Seq::new(v@.len(), |i: int| held(v@[i]))),
        Layer::Object(v) => JsonView::Object(
            Seq::new(v@.len(), |i: int| (v@[i].0@, held(*v@[i].1))),
        ),
    }
}

/// Tells the variants of `serde_json::Value` apart. Of a number it keeps what
/// `serde_json::Number::as_u64` gives, of an object its members as
/// `serde_json::Map::iter` walks them.
#[verifier::external_body]
fn take_apart(value: &serde_json::Value) -> (r: Layer)
    ensures
        layer_view(r) == held(*value),
{
    match value {
        serde_json::Value::Null => Layer::Null,
        serde_json::Value::Bool(b) => Layer::Bool(*b),
        serde_json::Value::Number(n) => Layer::Number(n.as_u64()),
        serde_json::Value::String(s) => Layer::Text(s),
        serde_json::Value::Array(v) => Layer::List(v),
        serde_json::Value::Object(m) => Layer::Object(m.iter().collect()),
    }
}

/// The plain value of a `serde_json::Value`.
fn plain(value: &serde_json::Value) -> (r: Json)
    ensures
        r@ == held(*value),
    decreases held(*value),
{
    match take_apart(value) {
        Layer::Null => Json::Null,
        Layer::Bool(b) => Json::Bool(b),
        Layer::Number(n) => Json::Number(n),
        Layer::Text(s) => Json::Text(s.clone()),
        Layer::List(items) => {
            let mut list: Vec<Json> = Vec::new();
            let ghost all = held(*value)->List_0;
            let mut i: usize = 0;
            while i < items.len()
                invariant
                    i <= items.len(),
                    list.len() == i,
                    held(*value) == JsonView::List(all),
                    all == Seq::new(items@.len(), |k: int| held(items@[k])),
                    forall|k: int| 0 <= k < i ==> (#[trigger] list@[k])@ == all[k],
                decreases items.len() - i,
            {
                assert(all[i as int] == held(items@[i as int]));
                assert(decreases_to!(held(*value) => held(*value)->List_0));
                assert(decreases_to!(all => all[i as int]));
                list.push(plain(&items[i]));
                i = i + 1;
            }
            let r = Json::List(list);
            assert(r@->List_0 =~= all);
            r
        },
        Layer::Object(items) => {
            let mut members: Vec<Member> = Vec::new();
            let ghost all = held(*value)->Object_0;
            let mut i: usize = 0;
            while i < items.len()
                invariant
                    i <= items.len(),
                    members.len() == i,
                    held(*value) == JsonView::Object(all),
                    all == Seq::new(items@.len(), |k: int| (items@[k].0@, held(*items@[k].1))),
                    forall|k: int|
                        0 <= k < i ==> (#[trigger] members@[k]).key@ == all[k].0
                            && members@[k].value@ == all[k].1,
                decreases items.len() - i,
            {
                assert(all[i as int] == (items@[i as int].0@, held(*items@[i as int].1)));
                assert(decreases_to!(held(*value) => held(*value)->Object_0));
                assert(decreases_to!(all => all[i as int]));
                assert(decreases_to!(all[i as int] => all[i as int].1));
                let member = items[i];
                members.push(Member { key: member.0.clone(), value: plain(member.1) });
                i = i + 1;
            }
            let r = Json::Object(members);
            assert(r@->Object_0 =~= all);
            r
        },
    }
}

/// Reads a JSON document.
pub fn parse_json(bytes: &Vec<u8>) -> (r: Result<Json, String>)
    ensures
        document(bytes@) == match r {
            Ok(j) => Ok::<JsonView, Seq<char>>(j@),
            Err(e) => Err::<JsonView, Seq<char>>(e@),
        },
{
    match from_slice(bytes) {
        Ok(v) => Ok(plain(&v)),
        Err(e) => Err(e),
    }
}

impl JsonView {
    /// The value of a key; none where this is no object or has no such key.
    pub open spec fn member(self, key: Seq<char>) -> Option<JsonView> {
        match self {
            JsonView::Object(members) => member_in(members, key),
            _ => None,
        }
    }

    pub open spec fn list(self) -> Option<Seq<JsonView>> {
        match self {
            JsonView::List(items) => Some(items),
            _ => None,
        }
    }

    pub open spec fn text(self) -> Option<Seq<char>> {
        match self {
            JsonView::Text(s) => Some(s),
            _ => None,
        }
    }

    pub open spec fn number(self) -> Option<u64> {
        match self {
            JsonView::Number(n) => n,
            _ => None,
        }
    }

    /// The list of a key, where there is one.
    pub open spec fn list_of(self, key: Seq<char>) -> Option<Seq<JsonView>> {
        match self.member(key) {
            Some(v) => v.list(),
            None => None,
        }
    }

    pub open spec fn text_of(self, key: Seq<char>) -> Option<Seq<char>> {
        match self.member(key) {
            Some(v) => v.text(),
            None => None,
        }
    }

    pub open spec fn number_of(self, key: Seq<char>) -> Option<u64> {
        match self.member(key) {
            Some(v) => v.number(),
            None => None,
        }
    }
}

pub open spec fn member_in(members: Seq<(Seq<char>, JsonView)>, key: Seq<char>) -> Option<JsonView>
    decreases members.len(),
{
    if members.len() == 0 {
        None
    } else if members[0].0 == key {
        Some(members[0].1)
    } else {
        member_in(members.drop_first(), key)
    }
}

impl Json {
    /// The value of a key; none where this is no object or has no such key.
    pub fn get(&self, key: &str) -> (r: Option<&Json>)
        ensures
            match r {
                Some(j) => self@.member(key@) == Some(j@),
                None => self@.member(key@) is None,
            },
    {
        match self {
            Json::Object(members) => {
                let ghost all = self@->Object_0;
                let mut i: usize = 0;
                assert(all.skip(0) =~= all);
                while i < members.len()
                    invariant
                        i <= members@.len(),
                        *self == Json::Object(*members),
                        all == self@->Object_0,
                        all.len() == members@.len(),
                        member_in(all, key@) == member_in(all.skip(i as int), key@),
                    decreases members@.len() - i,
                {
                    assert(all.skip(i as int)[0] == (
                        members@[i as int].key@,
                        members@[i as int].value@,
                    ));
                    if same(members[i].key.as_str(), key) {
                        return Some(&members[i].value);
                    }
                    assert(all.skip(i as int).drop_first() =~= all.skip(i + 1));
                    i = i + 1;
                }
                None
            },
            _ => None,
        }
    }

    pub fn as_array(&self) -> (r: Option<&Vec<Json>>)
        ensures
            match r {
                Some(v) => *self == Json::List(*v) && self@.list() is Some && self@.list()->0.len()
                    == v@.len() && forall|i: int|
                    0 <= i < v@.len() ==> self@.list()->0[i] == (#[trigger] v@[i])@,
                None => self@.list() is None,
            },
    {
        match self {
            Json::List(v) => Some(v),
            _ => None,
        }
    }

    pub fn as_str(&self) -> (r: Option<&str>)
        ensures
            match r {
                Some(s) => self@.text() == Some(s@),
                None => self@.text() is None,
            },
    {
        match self {
            Json::Text(s) => Some(s.as_str()),
            _ => None,
        }
    }

    pub fn as_u64(&self) -> (r: Option<u64>)
        ensures
            r == self@.number(),
    {
        match self {
            Json::Number(n) => *n,
            _ => None,
        }
    }

    /// The text of a key, where there is one.
    pub fn text_of(&self, key: &str) -> (r: Option<&str>)
        ensures
            match r {
                Some(s) => self@.text_of(key@) == Some(s@),
                None => self@.text_of(key@) is None,
            },
    {
        match self.get(key) {
            Some(v) => v.as_str(),
            None => None,
        }
    }

    /// The number of a key, where there is one.
    pub fn number_of(&self, key: &str) -> (r: Option<u64>)
        ensures
            r == self@.number_of(key@),
    {
        match self.get(key) {
            Some(v) => v.as_u64(),
            None => None,
        }
    }
}

proof fn lemma_member_at(members: Seq<(Seq<char>, JsonView)>, key: Seq<char>, k: int)
    requires
        0 <= k <= members.len(),
        k < members.len() ==> members[k].0 == key,
        forall|i: int| 0 <= i < k ==> (#[trigger] members[i]).0 != key,
    ensures
        k < members.len() ==> member_in(members, key) == Some(members[k].1),
        k == members.len() ==> member_in(members, key) is None,
    decreases k,
{
    if k > 0 {
        let rest = members.drop_first();
        assert(members[0].0 != key);
        assert forall|i: int| 0 <= i < k - 1 implies (#[trigger] rest[i]).0 != key by {
            assert(rest[i] == members[i + 1]);
        }
        lemma_member_at(rest, key, k - 1);
    }
}

/// The value of a key is that of the member with the key, member `k`; where there
/// is no such member, `k` is their number and there is no value. Only objects have
/// members.
pub proof fn law_json_member(j: &Json, key: &str, r: Option<&Json>, k: int)
    requires
        call_ensures(Json::get, (j, key), r),
        j matches Json::Object(v) ==> 0 <= k <= v@.len() && (k < v@.len() ==> v@[k].key@ == key@)
            && forall|i: int| 0 <= i < k ==> (#[trigger] v@[i]).key@ != key@,
    ensures
        j matches Json::Object(v) ==> (r is Some <==> k < v@.len()),
        j matches Json::Object(v) ==> (k < v@.len() ==> r->0@ == v@[k].value@),
        !(j is Object) ==> r is None,
{
    if let Json::Object(v) = *j {
        let members = j@->Object_0;
        assert(members.len() == v@.len());
        assert forall|i: int| 0 <= i < k implies (#[trigger] members[i]).0 != key@ by {
            assert(v@[i].key@ != key@);
        }
        lemma_member_at(members, key@, k);
    }
}

/// What kind of value is taken as what, and that of a key as that of its member.
pub proof fn law_json_kinds(
    j: &Json,
    key: &str,
    items: Option<&Vec<Json>>,
    text: Option<&str>,
    number: Option<u64>,
    member: Option<&Json>,
    its_text: Option<&str>,
    its_number: Option<u64>,
)
    requires
        call_ensures(Json::as_array, (j,), items),
        call_ensures(Json::as_str, (j,), text),
        call_ensures(Json::as_u64, (j,), number),
        call_ensures(Json::get, (j, key), member),
        call_ensures(Json::text_of, (j, key), its_text),
        call_ensures(Json::number_of, (j, key), its_number),
    ensures
        items is Some <==> j is List,
        j matches Json::List(v) ==> *items->0 == v,
        text is Some <==> j is Text,
        j matches Json::Text(s) ==> text->0@ == s@,
        j matches Json::Number(n) ==> number == n,
        !(j is Number) ==> number is None,
        member is None ==> its_text is None && its_number is None,
        member matches Some(m) ==> (its_text is Some <==> m is Text),
        member matches Some(m) ==> (m matches Json::Text(s) ==> its_text->0@ == s@),
        member matches Some(m) ==> (m matches Json::Number(n) ==> its_number == n),
        member matches Some(m) ==> (!(m is Number) ==> its_number is None),
{
}

} // verus!
