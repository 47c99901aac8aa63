//! JSON values as the runner holds them: the arguments of steps and the values
//! that retrievers hand to assertions.

use vstd::prelude::*;

verus! {

/// A JSON value. A number is held as its JSON text; an object holds its members
/// in the order in which they are written.
#[derive(Debug, PartialEq)]
pub enum JsonValue {
    Null,
    Bool(bool),
    Number(String),
    String(String),
    Array(Vec<JsonValue>),
    Object(Vec<(String, JsonValue)>),
}

/// The mathematical value of a [`JsonValue`].
pub enum Json {
    Null,
    Bool(bool),
    Number(Seq<char>),
    String(Seq<char>),
    Array(Seq<Json>),
    Object(Seq<(Seq<char>, Json)>),
}

impl View for JsonValue {
    type V = Json;

    open spec fn view(&self) -> Json
        decreases self,
    {
        match self {
            JsonValue::Null => Json::Null,
            JsonValue::Bool(b) => Json::Bool(*b),
            JsonValue::Number(n) => Json::Number(n@),
            JsonValue::String(s) => Json::String(s@),
            JsonValue::Array(items) => Json::Array(
                Seq::new(
                    items@.len(),
                    |i: int|
                        if 0 <= i < items@.len() {
                            items@[i]@
                        } else {
                            Json::Null
                        },
                ),
            ),
            JsonValue::Object(members) => Json::Object(
                Seq::new(
                    members@.len(),
                    |i: int|
                        if 0 <= i < members@.len() {
                            member_view(members@[i])
                        } else {
                            (Seq::empty(), Json::Null)
                        },
                ),
            ),
        }
    }
}

/// The name and value of a named JSON value.
pub open spec fn member_view(member: (String, JsonValue)) -> (Seq<char>, Json)
    decreases member,
{
    (member.0@, member.1@)
}

/// The values of a sequence of JSON values.
pub open spec fn items_view(items: Seq<JsonValue>) -> Seq<Json> {
    Seq::new(items.len(), |i: int| items[i]@)
}

/// The names and values of a sequence of named JSON values.
pub open spec fn members_view(members: Seq<(String, JsonValue)>) -> Seq<(Seq<char>, Json)> {
    Seq::new(members.len(), |i: int| member_view(members[i]))
}

/// The value of an array is the sequence of the values of its items.
pub proof fn lemma_array_view(items: Vec<JsonValue>)
    ensures
        JsonValue::Array(items)@ == Json::Array(items_view(items@)),
{
    assert(JsonValue::Array(items)@->Array_0 =~= items_view(items@));
}

/// The value of an object is the sequence of the names and values of its members.
pub proof fn lemma_object_view(members: Vec<(String, JsonValue)>)
    ensures
        JsonValue::Object(members)@ == Json::Object(members_view(members@)),
{
    assert(JsonValue::Object(members)@->Object_0 =~= members_view(members@));
}

impl Clone for JsonValue {
    #[verifier::loop_isolation(false)]
    fn clone(&self) -> (r: Self)
        ensures
            r@ == self@,
        decreases self,
    {
        match self {
            JsonValue::Null => JsonValue::Null,
            JsonValue::Bool(b) => JsonValue::Bool(*b),
            JsonValue::Number(n) => JsonValue::Number(n.clone()),
            JsonValue::String(s) => JsonValue::String(s.clone()),
            JsonValue::Array(items) => {
                let mut out: Vec<JsonValue> = Vec::new();
                let mut i: usize = 0;
                while i < items.len()
                    invariant
                        i <= items.len(),
                        out@.len() == i,
                        forall|j: int| 0 <= j < i ==> out@[j]@ == items@[j]@,
                    decreases items.len() - i,
                {
                    out.push(items[i].clone());
                    i = i + 1;
                }
                proof {
                    lemma_array_view(out);
                    lemma_array_view(*items);
                    assert(items_view(out@) =~= items_view(items@));
                }
                JsonValue::Array(out)
            },
            JsonValue::Object(members) => {
                let out = clone_members(members);
                proof {
                    lemma_object_view(out);
                    lemma_object_view(*members);
                }
                JsonValue::Object(out)
            },
        }
    }
}

/// A copy of a list of named values.
pub fn clone_members(members: &Vec<(String, JsonValue)>) -> (r: Vec<(String, JsonValue)>)
    ensures
        members_view(r@) == members_view(members@),
    decreases members,
{
    let mut out: Vec<(String, JsonValue)> = Vec::new();
    let mut i: usize = 0;
    while i < members.len()
        invariant
            i <= members.len(),
            out@.len() == i,
            forall|j: int|
                0 <= j < i ==> out@[j].0@ == members@[j].0@ && out@[j].1@ == members@[j].1@,
        decreases members.len() - i,
    {
        out.push((members[i].0.clone(), members[i].1.clone()));
        i = i + 1;
    }
    proof {
        assert(members_view(out@) =~= members_view(members@));
    }
    out
}

/// Whether two JSON values are the same value.
#[verifier::loop_isolation(false)]
pub fn json_equal(a: &JsonValue, b: &JsonValue) -> (r: bool)
    ensures
        r == (a@ == b@),
    decreases a,
{
    match (a, b) {
        (JsonValue::Null, JsonValue::Null) => true,
        (JsonValue::Bool(x), JsonValue::Bool(y)) => *x == *y,
        (JsonValue::Number(x), JsonValue::Number(y)) => *x == *y,
        (JsonValue::String(x), JsonValue::String(y)) => *x == *y,
        (JsonValue::Array(xs), JsonValue::Array(ys)) => {
            proof {
                lemma_array_view(*xs);
                lemma_array_view(*ys);
            }
            if xs.len() != ys.len() {
                assert(items_view(xs@).len() != items_view(ys@).len());
                return false;
            }
            let mut i: usize = 0;
            while i < xs.len()
                invariant
                    i <= xs.len(),
                    xs.len() == ys.len(),
                    forall|j: int| 0 <= j < i ==> xs@[j]@ == ys@[j]@,
                decreases xs.len() - i,
            {
                if !json_equal(&xs[i], &ys[i]) {
                    assert(items_view(xs@)[i as int] != items_view(ys@)[i as int]);
                    return false;
                }
                i = i + 1;
            }
            assert(items_view(xs@) =~= items_view(ys@));
            true
        },
        (JsonValue::Object(xs), JsonValue::Object(ys)) => {
            proof {
                lemma_object_view(*xs);
                lemma_object_view(*ys);
            }
            if xs.len() != ys.len() {
                assert(members_view(xs@).len() != members_view(ys@).len());
                return false;
            }
            let mut i: usize = 0;
            while i < xs.len()
                invariant
                    i <= xs.len(),
                    xs.len() == ys.len(),
                    forall|j: int|
                        0 <= j < i ==> xs@[j].0@ == ys@[j].0@ && xs@[j].1@ == ys@[j].1@,
                decreases xs.len() - i,
            {
                if xs[i].0 != ys[i].0 || !json_equal(&xs[i].1, &ys[i].1) {
                    assert(members_view(xs@)[i as int] != members_view(ys@)[i as int]);
                    return false;
                }
                i = i + 1;
            }
            assert(members_view(xs@) =~= members_view(ys@));
            true
        },
        _ => false,
    }
}

} // verus!

verus! {

/// `serde_json::Value`: a JSON value as the crates that read and write JSON and
/// YAML hold it. It is only handed on; nothing is known of what it holds.
#[verifier::external_type_specification]
#[verifier::external_body]
pub struct ExSerdeValue(serde_json::Value);

/// The compact JSON text of a value.
pub uninterp spec fn json_text(v: Json) -> Seq<char>;

/// The YAML text of a value.
pub uninterp spec fn yaml_text(v: Json) -> Seq<char>;

/// Builds the `serde_json::Value` that holds what `v` holds: each variant becomes
/// the variant of the same name, a number is read back from its text by
/// `serde_json::from_str`, and an object's members are collected into a
/// `serde_json::Map`. Nothing is claimed of the result.
#[verifier::external_body]
fn to_serde(v: &JsonValue) -> serde_json::Value {
    match v {
        JsonValue::Null => serde_json::Value::Null,
        JsonValue::Bool(b) => serde_json::Value::Bool(*b),
        JsonValue::Number(n) => serde_json::from_str(n).unwrap_or(serde_json::Value::Null),
        JsonValue::String(s) => serde_json::Value::String(s.clone()),
        JsonValue::Array(items) => serde_json::Value::Array(items.iter().map(to_serde).collect()),
        JsonValue::Object(members) => serde_json::Value::Object(
            members.iter().map(|m| (m.0.clone(), to_serde(&m.1))).collect(),
        ),
    }
}

/// `serde_json::to_string` on the value that `v` stands for. The text that it
/// writes depends on the value alone, so the result is named: it is
/// `json_text` of the value.
#[verifier::external_body]
pub(crate) fn to_json_text(v: &JsonValue) -> (r: String)
    ensures
        r@ == json_text(v@),
{
    serde_json::to_string(&to_serde(v)).unwrap_or_default()
}

/// `serde_yaml::to_string` on the value that `v` stands for. The text that it
/// writes depends on the value alone, so the result is named: it is
/// `yaml_text` of the value.
#[verifier::external_body]
pub(crate) fn to_yaml_text(v: &JsonValue) -> (r: String)
    ensures
        r@ == yaml_text(v@),
{
    serde_yaml::to_string(&to_serde(v)).unwrap_or_default()
}

} // verus!

verus! {

/// What a YAML document holds, read as a JSON value, or the message with which
/// the document is refused.
pub uninterp spec fn yaml_document(text: Seq<char>) -> Result<Json, Seq<char>>;

/// Takes a `serde_json::Value` apart: each variant becomes the variant of the
/// same name, a number becomes the text that its `to_string` gives, and the
/// members of an object come in the order in which its `iter` hands them out.
/// Nothing is claimed of the result.
#[verifier::external_body]
fn from_serde(v: &serde_json::Value) -> JsonValue {
    match v {
        serde_json::Value::Null => JsonValue::Null,
        serde_json::Value::Bool(b) => JsonValue::Bool(*b),
        serde_json::Value::Number(n) => JsonValue::Number(n.to_string()),
        serde_json::Value::String(s) => JsonValue::String(s.clone()),
        serde_json::Value::Array(items) => JsonValue::Array(items.iter().map(from_serde).collect()),
        serde_json::Value::Object(members) => JsonValue::Object(
            members.iter().map(|m| (m.0.clone(), from_serde(m.1))).collect(),
        ),
    }
}

/// `serde_yaml::from_str`, reading the document as a `serde_json::Value`. What
/// it gives depends on the text alone, so the result is named: it is
/// `yaml_document` of the text, the value on success and the error's message
/// on failure.
#[verifier::external_body]
pub(crate) fn decode_yaml(text: &str) -> (r: Result<JsonValue, String>)
    ensures
        match r {
            Ok(v) => yaml_document(text@) == Ok::<Json, Seq<char>>(v@),
            Err(message) => yaml_document(text@) == Err::<Json, Seq<char>>(message@),
        },
{
    match serde_yaml::from_str::<serde_json::Value>(text) {
        Ok(v) => Ok(from_serde(&v)),
        Err(e) => Err(e.to_string()),
    }
}

/// The value of the first member called `name`, if there is one.
pub open spec fn lookup(members: Seq<(Seq<char>, Json)>, name: Seq<char>) -> Option<Json>
    decreases members.len(),
{
    if members.len() == 0 {
        None
    } else if members[0].0 == name {
        Some(members[0].1)
    } else {
        lookup(members.drop_first(), name)
    }
}

/// The members that are not called `name`, in their order.
pub open spec fn without(members: Seq<(Seq<char>, Json)>, name: Seq<char>) -> Seq<
    (Seq<char>, Json),
>
    decreases members.len(),
{
    if members.len() == 0 {
        Seq::empty()
    } else if members.last().0 == name {
        without(members.drop_last(), name)
    } else {
        without(members.drop_last(), name).push(members.last())
    }
}

/// The names of the members, in their order.
pub open spec fn names(members: Seq<(Seq<char>, Json)>) -> Seq<Seq<char>> {
    Seq::new(members.len(), |i: int| members[i].0)
}

/// `lookup` finds the member at the first position that holds the name.
pub proof fn lemma_lookup_first(members: Seq<(Seq<char>, Json)>, name: Seq<char>, at: int)
    requires
        0 <= at < members.len(),
        members[at].0 == name,
        forall|j: int| 0 <= j < at ==> members[j].0 != name,
    ensures
        lookup(members, name) == Some(members[at].1),
    decreases members.len(),
{
    if at > 0 {
        let rest = members.drop_first();
        assert(rest[at - 1] == members[at]);
        assert forall|j: int| 0 <= j < at - 1 implies rest[j].0 != name by {
            assert(rest[j] == members[j + 1]);
        }
        lemma_lookup_first(rest, name, at - 1);
    }
}

/// `lookup` finds nothing where no member holds the name.
pub proof fn lemma_lookup_none(members: Seq<(Seq<char>, Json)>, name: Seq<char>)
    requires
        forall|j: int| 0 <= j < members.len() ==> members[j].0 != name,
    ensures
        lookup(members, name) is None,
    decreases members.len(),
{
    if members.len() > 0 {
        let rest = members.drop_first();
        assert forall|j: int| 0 <= j < rest.len() implies rest[j].0 != name by {
            assert(rest[j] == members[j + 1]);
        }
        lemma_lookup_none(rest, name);
    }
}

/// The position of the first member called `name`, if there is one.
pub fn find_member(members: &Vec<(String, JsonValue)>, name: &str) -> (r: Option<usize>)
    ensures
        match r {
            Some(at) => at < members.len() && members@[at as int].0@ == name@ && lookup(
                members_view(members@),
                name@,
            ) == Some(members@[at as int].1@),
            None => lookup(members_view(members@), name@) is None,
        },
{
    let mut i: usize = 0;
    while i < members.len()
        invariant
            i <= members.len(),
            forall|j: int| 0 <= j < i ==> members@[j].0@ != name@,
        decreases members.len() - i,
    {
        if crate::text::same_text(members[i].0.as_str(), name) {
            proof {
                let view = members_view(members@);
                assert forall|j: int| 0 <= j < i implies view[j].0 != name@ by {
                    assert(view[j].0 == members@[j].0@);
                }
                lemma_lookup_first(view, name@, i as int);
            }
            return Some(i);
        }
        i = i + 1;
    }
    proof {
        let view = members_view(members@);
        assert forall|j: int| 0 <= j < view.len() implies view[j].0 != name@ by {
            assert(view[j].0 == members@[j].0@);
        }
        lemma_lookup_none(view, name@);
    }
    None
}

/// A copy of the members that are not called `name`.
pub fn members_without(members: &Vec<(String, JsonValue)>, name: &str) -> (r: Vec<
    (String, JsonValue),
>)
    ensures
        members_view(r@) == without(members_view(members@), name@),
{
    let mut out: Vec<(String, JsonValue)> = Vec::new();
    let mut i: usize = 0;
    let ghost view = members_view(members@);
    assert(view.subrange(0, 0) =~= Seq::<(Seq<char>, Json)>::empty());
    assert(members_view(out@) =~= Seq::<(Seq<char>, Json)>::empty());
    while i < members.len()
        invariant
            i <= members.len(),
            view == members_view(members@),
            members_view(out@) == without(view.subrange(0, i as int), name@),
        decreases members.len() - i,
    {
        proof {
            let next = view.subrange(0, i + 1);
            assert(next.drop_last() =~= view.subrange(0, i as int));
            assert(next.last() == view[i as int]);
            assert(view[i as int].0 == members@[i as int].0@);
        }
        let ghost before = members_view(out@);
        if !crate::text::same_text(members[i].0.as_str(), name) {
            out.push((members[i].0.clone(), members[i].1.clone()));
            proof {
                assert(members_view(out@) =~= before.push(view[i as int]));
            }
        }
        i = i + 1;
    }
    assert(view.subrange(0, view.len() as int) =~= view);
    out
}

} // verus!

verus! {

impl JsonValue {
    /// The compact JSON text of the value.
    pub fn to_json(&self) -> (r: String)
        ensures
            r@ == json_text(self@),
    {
        to_json_text(self)
    }

    /// The YAML text of the value.
    pub fn to_yaml(&self) -> (r: String)
        ensures
            r@ == yaml_text(self@),
    {
        to_yaml_text(self)
    }

    /// The value that a YAML document holds, or the message with which the
    /// document is refused.
    pub fn from_yaml(text: &str) -> (r: Result<JsonValue, String>)
        ensures
            match r {
                Ok(v) => yaml_document(text@) == Ok::<Json, Seq<char>>(v@),
                Err(message) => yaml_document(text@) == Err::<Json, Seq<char>>(message@),
            },
    {
        decode_yaml(text)
    }
}

} // verus!
