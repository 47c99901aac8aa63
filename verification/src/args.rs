//! Binding the arguments of a step: the names that a definition asks for, the
//! values that the line of the test gives, and the placeholders that are
//! replaced in them.

use crate::errors::HumaneInputError;
use crate::json::{
    find_member, items_view, lemma_array_view, lemma_object_view, lookup, member_view,
    members_view, names, Json, JsonValue,
};
use crate::options::{pairs_view, clone_pairs, HumaneContext};
use crate::segments::{pattern_matches, segment_matches, HumaneSegment, HumaneSegments, Segment};
use crate::text::{
    chars_of, contains, contains_text, join, join_text, lemma_replace_absent, occurs_at, replace,
    replace_text, text_of, texts,
};
use vstd::prelude::*;

verus! {

/// What a placeholder looks like in a text: its key between two delimiters.
pub open spec fn placeholder_text(delim: Seq<char>, key: Seq<char>) -> Seq<char> {
    delim + key + delim
}

/// `s` after each placeholder, in the order of the list, has been replaced by
/// its value wherever it stands.
pub open spec fn substitute_text(
    s: Seq<char>,
    delim: Seq<char>,
    placeholders: Seq<(Seq<char>, Seq<char>)>,
) -> Seq<char>
    decreases placeholders.len(),
{
    if placeholders.len() == 0 {
        s
    } else {
        substitute_text(
            replace_text(s, placeholder_text(delim, placeholders[0].0), placeholders[0].1),
            delim,
            placeholders.drop_first(),
        )
    }
}

/// `v` with the placeholders replaced in every string that it holds as a
/// value: in a string itself, in the items of an array and in the values of
/// the members of an object, however deep. Names of members, numbers, booleans
/// and null stay as they are.
pub open spec fn substitute(
    v: Json,
    delim: Seq<char>,
    placeholders: Seq<(Seq<char>, Seq<char>)>,
) -> Json
    decreases v,
{
    match v {
        Json::String(s) => Json::String(substitute_text(s, delim, placeholders)),
        Json::Array(items) => Json::Array(
            Seq::new(items.len(), |i: int| substitute_item(items, i, delim, placeholders)),
        ),
        Json::Object(members) => Json::Object(
            Seq::new(members.len(), |i: int| substitute_member(members, i, delim, placeholders)),
        ),
        _ => v,
    }
}

/// The item at position `i` with the placeholders replaced.
pub open spec fn substitute_item(
    items: Seq<Json>,
    i: int,
    delim: Seq<char>,
    placeholders: Seq<(Seq<char>, Seq<char>)>,
) -> Json
    decreases items,
{
    if 0 <= i < items.len() {
        substitute(items[i], delim, placeholders)
    } else {
        Json::Null
    }
}

/// The member at position `i` with the placeholders replaced in its value.
pub open spec fn substitute_member(
    members: Seq<(Seq<char>, Json)>,
    i: int,
    delim: Seq<char>,
    placeholders: Seq<(Seq<char>, Seq<char>)>,
) -> (Seq<char>, Json)
    decreases members,
{
    if 0 <= i < members.len() {
        (members[i].0, substitute(members[i].1, delim, placeholders))
    } else {
        (Seq::empty(), Json::Null)
    }
}

/// No string that `v` holds as a value holds the delimiter.
pub open spec fn delimiter_free(v: Json, delim: Seq<char>) -> bool
    decreases v,
{
    match v {
        Json::String(s) => !contains_text(s, delim),
        Json::Array(items) => forall|i: int|
            0 <= i < items.len() ==> delimiter_free(#[trigger] items[i], delim),
        Json::Object(members) => forall|i: int|
            0 <= i < members.len() ==> delimiter_free((#[trigger] members[i]).1, delim),
        _ => true,
    }
}

/// A text without the delimiter holds no placeholder.
pub proof fn lemma_no_delimiter_no_placeholder(s: Seq<char>, delim: Seq<char>, key: Seq<char>)
    requires
        !contains_text(s, delim),
    ensures
        !contains_text(s, placeholder_text(delim, key)),
{
    let whole = placeholder_text(delim, key);
    assert forall|at: int| !occurs_at(s, whole, at) by {
        if occurs_at(s, whole, at) {
            assert(s.subrange(at, at + delim.len()) =~= whole.subrange(0, delim.len() as int));
            assert(whole.subrange(0, delim.len() as int) =~= delim);
            assert(occurs_at(s, delim, at));
        }
    }
}

/// Replacing placeholders leaves a text without the delimiter as it is.
pub proof fn law_substitution_keeps_plain_text(
    s: Seq<char>,
    delim: Seq<char>,
    placeholders: Seq<(Seq<char>, Seq<char>)>,
)
    requires
        !contains_text(s, delim),
    ensures
        substitute_text(s, delim, placeholders) == s,
    decreases placeholders.len(),
{
    if placeholders.len() > 0 {
        lemma_no_delimiter_no_placeholder(s, delim, placeholders[0].0);
        lemma_replace_absent(s, placeholder_text(delim, placeholders[0].0), placeholders[0].1);
        law_substitution_keeps_plain_text(s, delim, placeholders.drop_first());
    }
}

/// Replacing placeholders leaves a value as it is if none of the strings that
/// it holds as values, however deep, holds the delimiter.
pub proof fn law_substitution_keeps_plain_values(
    v: Json,
    delim: Seq<char>,
    placeholders: Seq<(Seq<char>, Seq<char>)>,
)
    requires
        delimiter_free(v, delim),
    ensures
        substitute(v, delim, placeholders) == v,
    decreases v,
{
    match v {
        Json::String(s) => {
            law_substitution_keeps_plain_text(s, delim, placeholders);
        },
        Json::Array(items) => {
            let after = substitute(v, delim, placeholders)->Array_0;
            assert forall|i: int| 0 <= i < items.len() implies after[i] == items[i] by {
                assert(delimiter_free(items[i], delim));
                law_substitution_keeps_plain_values(items[i], delim, placeholders);
            }
            assert(after =~= items);
        },
        Json::Object(members) => {
            let after = substitute(v, delim, placeholders)->Object_0;
            assert forall|i: int| 0 <= i < members.len() implies after[i] == members[i] by {
                assert(delimiter_free(members[i].1, delim));
                law_substitution_keeps_plain_values(members[i].1, delim, placeholders);
            }
            assert(after =~= members);
        },
        _ => {},
    }
}

/// `s` with each placeholder replaced by its value.
pub fn replace_inside_text(s: &str, delim: &str, placeholders: &Vec<(String, String)>) -> (r:
    String)
    ensures
        r@ == substitute_text(s@, delim@, pairs_view(placeholders@)),
{
    let mut current = chars_of(s);
    let delim_chars = chars_of(delim);
    let ghost all = pairs_view(placeholders@);
    if !contains(&current, &delim_chars) {
        proof {
            law_substitution_keeps_plain_text(s@, delim@, all);
        }
        return text_of(&current);
    }
    let mut i: usize = 0;
    assert(all.subrange(0, all.len() as int) =~= all);
    while i < placeholders.len()
        invariant
            i <= placeholders.len(),
            all == pairs_view(placeholders@),
            delim_chars@ == delim@,
            substitute_text(current@, delim@, all.subrange(i as int, all.len() as int))
                == substitute_text(s@, delim@, all),
        decreases placeholders.len() - i,
    {
        let mut matcher: Vec<char> = Vec::new();
        crate::text::push_all(&mut matcher, &delim_chars);
        let key = chars_of(placeholders[i].0.as_str());
        crate::text::push_all(&mut matcher, &key);
        crate::text::push_all(&mut matcher, &delim_chars);
        let value = chars_of(placeholders[i].1.as_str());
        proof {
            let rest = all.subrange(i as int, all.len() as int);
            assert(rest[0] == all[i as int]);
            assert(rest.drop_first() =~= all.subrange(i + 1, all.len() as int));
            assert(matcher@ =~= placeholder_text(delim@, rest[0].0));
        }
        current = replace(&current, &matcher, &value);
        i = i + 1;
    }
    text_of(&current)
}

/// `value` with the placeholders replaced in every string that it holds.
#[verifier::loop_isolation(false)]
pub fn substituted(value: &JsonValue, delim: &str, placeholders: &Vec<(String, String)>) -> (r:
    JsonValue)
    ensures
        r@ == substitute(value@, delim@, pairs_view(placeholders@)),
    decreases value,
{
    let ghost ph = pairs_view(placeholders@);
    match value {
        JsonValue::Null => JsonValue::Null,
        JsonValue::Bool(b) => JsonValue::Bool(*b),
        JsonValue::Number(n) => JsonValue::Number(n.clone()),
        JsonValue::String(s) => JsonValue::String(
            replace_inside_text(s.as_str(), delim, placeholders),
        ),
        JsonValue::Array(items) => {
            let mut out: Vec<JsonValue> = Vec::new();
            let mut i: usize = 0;
            while i < items.len()
                invariant
                    i <= items.len(),
                    out@.len() == i,
                    forall|j: int| 0 <= j < i ==> out@[j]@ == substitute(items@[j]@, delim@, ph),
                decreases items.len() - i,
            {
                out.push(substituted(&items[i], delim, placeholders));
                i = i + 1;
            }
            proof {
                lemma_array_view(out);
                lemma_array_view(*items);
                assert(items_view(out@) =~= substitute(value@, delim@, ph)->Array_0);
            }
            JsonValue::Array(out)
        },
        JsonValue::Object(members) => {
            let mut out: Vec<(String, JsonValue)> = Vec::new();
            let mut i: usize = 0;
            while i < members.len()
                invariant
                    i <= members.len(),
                    out@.len() == i,
                    forall|j: int|
                        0 <= j < i ==> out@[j].0@ == members@[j].0@ && out@[j].1@ == substitute(
                            members@[j].1@,
                            delim@,
                            ph,
                        ),
                decreases members.len() - i,
            {
                out.push((members[i].0.clone(), substituted(&members[i].1, delim, placeholders)));
                i = i + 1;
            }
            proof {
                lemma_object_view(out);
                lemma_object_view(*members);
                let target = substitute(value@, delim@, ph)->Object_0;
                assert forall|j: int| 0 <= j < out@.len() implies members_view(out@)[j]
                    == target[j] by {
                    assert(members_view(members@)[j] == member_view(members@[j]));
                }
                assert(members_view(out@) =~= target);
            }
            JsonValue::Object(out)
        },
    }
}

/// Replaces the placeholders in every string that `value` holds.
pub fn replace_inside_value(
    value: &mut JsonValue,
    delim: &str,
    placeholders: &Vec<(String, String)>,
)
    ensures
        final(value)@ == substitute(old(value)@, delim@, pairs_view(placeholders@)),
{
    let replaced = substituted(value, delim, placeholders);
    *value = replaced;
}

} // verus!

verus! {

/// A list of named values with `value` under `key`: in the place of the first
/// member of that name if there is one, at the end otherwise.
pub open spec fn bound(
    members: Seq<(Seq<char>, Json)>,
    key: Seq<char>,
    value: Json,
) -> Seq<(Seq<char>, Json)>
    decreases members.len(),
{
    if members.len() == 0 {
        seq![(key, value)]
    } else if members[0].0 == key {
        seq![(key, value)] + members.drop_first()
    } else {
        seq![members[0]] + bound(members.drop_first(), key, value)
    }
}

/// The value that the line of the test gives at a position where the
/// definition holds a variable: a quoted value itself, or what the arguments
/// beside the line hold under the name of a variable. `Err` holds the name of
/// a variable for which the arguments hold nothing. A literal gives nothing.
pub open spec fn supplied_value(supplied: Segment, user_args: Seq<(Seq<char>, Json)>) -> Result<
    Option<Json>,
    Seq<char>,
> {
    match supplied {
        Segment::Value(v) => Ok(Some(v)),
        Segment::Variable(name) => match lookup(user_args, name) {
            Some(v) => Ok(Some(v)),
            None => Err(name),
        },
        Segment::Literal(_) => Ok(None),
    }
}

/// What the first `n` positions of a definition and of a line bind: for every
/// variable of the definition, its name with the value that the line gives at
/// that position, a later binding of a name replacing an earlier one. `Err`
/// holds the name of the first variable of the line for which the arguments
/// hold nothing.
pub open spec fn bind(
    reference: Seq<Segment>,
    supplied: Seq<Segment>,
    user_args: Seq<(Seq<char>, Json)>,
    n: int,
) -> Result<Seq<(Seq<char>, Json)>, Seq<char>>
    decreases n,
{
    if n <= 0 || n > reference.len() || n > supplied.len() {
        Ok(Seq::empty())
    } else {
        match bind(reference, supplied, user_args, n - 1) {
            Err(missing) => Err(missing),
            Ok(before) => match reference[n - 1] {
                Segment::Variable(key) => match supplied_value(supplied[n - 1], user_args) {
                    Err(missing) => Err(missing),
                    Ok(Some(v)) => Ok(bound(before, key, v)),
                    Ok(None) => Ok(before),
                },
                _ => Ok(before),
            },
        }
    }
}

/// The number of positions that a definition and a line have in common.
pub open spec fn common_length(reference: Seq<Segment>, supplied: Seq<Segment>) -> int {
    if reference.len() <= supplied.len() {
        reference.len() as int
    } else {
        supplied.len() as int
    }
}

/// No variable of the definition faces a literal of the line.
pub open spec fn bindable(reference: Seq<Segment>, supplied: Seq<Segment>) -> bool {
    forall|i: int|
        0 <= i < common_length(reference, supplied) && #[trigger] reference[i] is Variable ==> !(
        supplied[i] is Literal)
}

/// A line that a definition stands for can be bound to it.
pub proof fn law_matching_patterns_are_bindable(reference: Seq<Segment>, supplied: Seq<Segment>)
    requires
        pattern_matches(supplied, reference),
    ensures
        bindable(reference, supplied),
{
    assert forall|i: int|
        0 <= i < common_length(reference, supplied) && #[trigger] reference[i] is Variable implies !(
    supplied[i] is Literal) by {
        assert(segment_matches(supplied[i], reference[i]));
    }
}

/// The arguments of one step: the values bound to the names that the
/// definition asks for, and the placeholders that are replaced in them when
/// they are read.
pub struct SegmentArgs {
    args: Vec<(String, JsonValue)>,
    placeholder_delim: String,
    placeholders: Vec<(String, String)>,
}

impl SegmentArgs {
    /// The names and the values as they were bound, before any placeholder is
    /// replaced.
    pub closed spec fn bindings(&self) -> Seq<(Seq<char>, Json)> {
        members_view(self.args@)
    }

    /// The delimiter of the placeholders.
    pub closed spec fn delimiter(&self) -> Seq<char> {
        self.placeholder_delim@
    }

    /// The placeholders and their values.
    pub closed spec fn replacements(&self) -> Seq<(Seq<char>, Seq<char>)> {
        pairs_view(self.placeholders@)
    }

    /// The value under `key` as it is read: with the placeholders replaced.
    pub open spec fn value_of(&self, key: Seq<char>) -> Option<Json> {
        match lookup(self.bindings(), key) {
            Some(v) => Some(substitute(v, self.delimiter(), self.replacements())),
            None => None,
        }
    }

    /// The names that are bound, in their order, with `, ` between them.
    pub open spec fn known_names(&self) -> Seq<char> {
        join_text(names(self.bindings()), ", "@)
    }

    /// Binds the variables of a definition to what a line of a test gives for
    /// them.
    ///
    /// The definition and the line are walked side by side. Where the
    /// definition holds a variable, its name is bound to the quoted value of
    /// the line, or to what `supplied_args` holds under the name of the line's
    /// variable; if `supplied_args` holds nothing under that name, the result
    /// is `NonexistentArgument` with that name and the names that there are.
    /// The placeholders and their delimiter come from `ctx`; without it there
    /// are none.
    pub fn build(
        reference_instruction: &HumaneSegments,
        supplied_instruction: &HumaneSegments,
        supplied_args: &Vec<(String, JsonValue)>,
        ctx: Option<&HumaneContext>,
    ) -> (r: Result<SegmentArgs, HumaneInputError>)
        requires
            bindable(reference_instruction@, supplied_instruction@),
        ensures
            match r {
                Ok(built) => {
                    &&& bind(
                        reference_instruction@,
                        supplied_instruction@,
                        members_view(supplied_args@),
                        common_length(reference_instruction@, supplied_instruction@),
                    ) == Ok::<Seq<(Seq<char>, Json)>, Seq<char>>(built.bindings())
                    &&& match ctx {
                        Some(c) => built.delimiter() == c.params.placeholder_delimiter@
                            && built.replacements() == pairs_view(c.params.placeholders@),
                        None => built.delimiter().len() == 0 && built.replacements().len() == 0,
                    }
                },
                Err(e) => {
                    &&& e matches HumaneInputError::NonexistentArgument { arg, has }
                    &&& bind(
                        reference_instruction@,
                        supplied_instruction@,
                        members_view(supplied_args@),
                        common_length(reference_instruction@, supplied_instruction@),
                    ) == Err::<Seq<(Seq<char>, Json)>, Seq<char>>(arg@)
                    &&& has@ == join_text(names(members_view(supplied_args@)), ", "@)
                },
            },
    {
        let total = if reference_instruction.segments.len() <= supplied_instruction.segments.len() {
            reference_instruction.segments.len()
        } else {
            supplied_instruction.segments.len()
        };
        let ghost reference = reference_instruction@;
        let ghost supplied = supplied_instruction@;
        let ghost user_args = members_view(supplied_args@);
        let mut args: Vec<(String, JsonValue)> = Vec::new();
        let mut i: usize = 0;
        assert(members_view(args@) =~= Seq::<(Seq<char>, Json)>::empty());
        while i < total
            invariant
                i <= total,
                total == common_length(reference, supplied),
                reference == reference_instruction@,
                supplied == supplied_instruction@,
                user_args == members_view(supplied_args@),
                bindable(reference, supplied),
                bind(reference, supplied, user_args, i as int) == Ok::<
                    Seq<(Seq<char>, Json)>,
                    Seq<char>,
                >(members_view(args@)),
            decreases total - i,
        {
            assert(reference[i as int] == reference_instruction.segments@[i as int]@);
            assert(supplied[i as int] == supplied_instruction.segments@[i as int]@);
            if let HumaneSegment::Variable(inst_key) = &reference_instruction.segments[i] {
                match &supplied_instruction.segments[i] {
                    HumaneSegment::Value(val) => {
                        bind_member(&mut args, inst_key.as_str(), val.clone());
                    },
                    HumaneSegment::Variable(var) => {
                        match find_member(supplied_args, var.as_str()) {
                            Some(at) => {
                                bind_member(&mut args, inst_key.as_str(), supplied_args[at].1.clone());
                            },
                            None => {
                                let has = join(&member_names(supplied_args), ", ");
                                proof {
                                    lemma_bind_fault_stays(
                                        reference,
                                        supplied,
                                        user_args,
                                        i + 1,
                                        total as int,
                                    );
                                }
                                return Err(
                                    HumaneInputError::NonexistentArgument { arg: var.clone(), has },
                                );
                            },
                        }
                    },
                    HumaneSegment::Literal(_) => {
                        assert(reference[i as int] is Variable);
                    },
                }
            }
            i = i + 1;
        }
        let (placeholder_delim, placeholders) = match ctx {
            Some(c) => (c.params.placeholder_delimiter.clone(), clone_pairs(&c.params.placeholders)),
            None => {
                let none: Vec<(String, String)> = Vec::new();
                assert(pairs_view(none@) =~= Seq::<(Seq<char>, Seq<char>)>::empty());
                (String::new(), none)
            },
        };
        Ok(SegmentArgs { args, placeholder_delim, placeholders })
    }

    /// The value bound to `k`, with the placeholders replaced in it. If nothing
    /// is bound to `k`, the result is `NonexistentArgument` with `k` and the
    /// names that are bound.
    pub fn get_value(&self, k: &str) -> (r: Result<JsonValue, HumaneInputError>)
        ensures
            match r {
                Ok(v) => self.value_of(k@) == Some(v@),
                Err(e) => {
                    &&& self.value_of(k@) is None
                    &&& e matches HumaneInputError::NonexistentArgument { arg, has }
                    &&& arg@ == k@
                    &&& has@ == self.known_names()
                },
            },
    {
        match find_member(&self.args, k) {
            Some(at) => Ok(
                substituted(&self.args[at].1, self.placeholder_delim.as_str(), &self.placeholders),
            ),
            None => Err(
                HumaneInputError::NonexistentArgument {
                    arg: k.to_string(),
                    has: join(&member_names(&self.args), ", "),
                },
            ),
        }
    }

    /// The string bound to `k`, with the placeholders replaced in it. If
    /// nothing is bound to `k`, the result is `NonexistentArgument`; if what is
    /// bound is not a string, it is `IncorrectArgumentType`, which names the
    /// type that was found.
    pub fn get_string(&self, k: &str) -> (r: Result<String, HumaneInputError>)
        ensures
            match r {
                Ok(text) => self.value_of(k@) == Some(Json::String(text@)),
                Err(e) => match self.value_of(k@) {
                    None => {
                        &&& e matches HumaneInputError::NonexistentArgument { arg, has }
                        &&& arg@ == k@
                        &&& has@ == self.known_names()
                    },
                    Some(found) => {
                        &&& !(found is String)
                        &&& e matches HumaneInputError::IncorrectArgumentType {
                            arg,
                            was,
                            expected,
                        }
                        &&& arg@ == k@
                        &&& was@ == argument_type(found)
                        &&& expected@ == "string"@
                    },
                },
            },
    {
        let value = match self.get_value(k) {
            Ok(value) => value,
            Err(e) => {
                return Err(e);
            },
        };
        let found = match value {
            JsonValue::Null => "null",
            JsonValue::Bool(_) => "boolean",
            JsonValue::Number(_) => "number",
            JsonValue::Array(_) => "array",
            JsonValue::Object(_) => "object",
            JsonValue::String(text) => {
                return Ok(text);
            },
        };
        Err(
            HumaneInputError::IncorrectArgumentType {
                arg: k.to_string(),
                was: found.to_string(),
                expected: "string".to_string(),
            },
        )
    }
}

/// The name of the type of a value, as an error about an argument gives it.
pub open spec fn argument_type(v: Json) -> Seq<char> {
    match v {
        Json::Null => "null"@,
        Json::Bool(_) => "boolean"@,
        Json::Number(_) => "number"@,
        Json::String(_) => "string"@,
        Json::Array(_) => "array"@,
        Json::Object(_) => "object"@,
    }
}

/// Once the first `n` positions lack an argument, all of them do.
pub proof fn lemma_bind_fault_stays(
    reference: Seq<Segment>,
    supplied: Seq<Segment>,
    user_args: Seq<(Seq<char>, Json)>,
    n: int,
    total: int,
)
    requires
        0 <= n <= total,
        total <= reference.len(),
        total <= supplied.len(),
        bind(reference, supplied, user_args, n) is Err,
    ensures
        bind(reference, supplied, user_args, total) == bind(reference, supplied, user_args, n),
    decreases total - n,
{
    if n < total {
        lemma_bind_fault_stays(reference, supplied, user_args, n + 1, total);
    }
}

/// The names of the members, in their order.
pub fn member_names(members: &Vec<(String, JsonValue)>) -> (r: Vec<String>)
    ensures
        texts(r@) == names(members_view(members@)),
{
    let mut out: Vec<String> = Vec::new();
    let mut i: usize = 0;
    while i < members.len()
        invariant
            i <= members.len(),
            out@.len() == i,
            forall|j: int| 0 <= j < i ==> out@[j]@ == members@[j].0@,
        decreases members.len() - i,
    {
        out.push(members[i].0.clone());
        i = i + 1;
    }
    assert(texts(out@) =~= names(members_view(members@)));
    out
}

/// Puts `value` under `key`: in the place of the first member of that name if
/// there is one, at the end otherwise.
pub fn bind_member(members: &mut Vec<(String, JsonValue)>, key: &str, value: JsonValue)
    ensures
        members_view(final(members)@) == bound(members_view(old(members)@), key@, value@),
{
    let ghost before = members_view(members@);
    let mut out: Vec<(String, JsonValue)> = Vec::new();
    let mut i: usize = 0;
    let mut pending = Some(value);
    assert(before.subrange(0, before.len() as int) =~= before);
    assert(members_view(out@) + bound(before, key@, value@) =~= bound(before, key@, value@));
    while i < members.len()
        invariant
            i <= members.len(),
            before == members_view(members@),
            match pending {
                Some(v) => v@ == value@ && members_view(out@) + bound(
                    before.subrange(i as int, before.len() as int),
                    key@,
                    value@,
                ) == bound(before, key@, value@),
                None => members_view(out@) + before.subrange(i as int, before.len() as int)
                    == bound(before, key@, value@),
            },
        decreases members.len() - i,
    {
        let ghost rest = before.subrange(i as int, before.len() as int);
        let ghost so_far = members_view(out@);
        proof {
            assert(rest[0] == before[i as int]);
            assert(before[i as int] == member_view(members@[i as int]));
            assert(rest.drop_first() =~= before.subrange(i + 1, before.len() as int));
        }
        let replace_here = pending.is_some() && crate::text::same_text(members[i].0.as_str(), key);
        if replace_here {
            let v = pending.take().unwrap();
            out.push((key.to_string(), v));
            proof {
                assert(members_view(out@) =~= so_far + seq![(key@, value@)]);
                assert(members_view(out@) + rest.drop_first() =~= so_far + (seq![(key@, value@)]
                    + rest.drop_first()));
            }
        } else {
            out.push((members[i].0.clone(), members[i].1.clone()));
            proof {
                assert(members_view(out@) =~= so_far + seq![rest[0]]);
                if pending is Some {
                    assert(members_view(out@) + bound(rest.drop_first(), key@, value@) =~= so_far
                        + (seq![rest[0]] + bound(rest.drop_first(), key@, value@)));
                } else {
                    assert(members_view(out@) + rest.drop_first() =~= so_far + rest);
                }
            }
        }
        i = i + 1;
    }
    let ghost so_far = members_view(out@);
    proof {
        assert(before.subrange(before.len() as int, before.len() as int) =~= Seq::<
            (Seq<char>, Json),
        >::empty());
    }
    if let Some(v) = pending {
        out.push((key.to_string(), v));
        proof {
            assert(members_view(out@) =~= so_far + seq![(key@, value@)]);
        }
    } else {
        proof {
            assert(so_far + Seq::<(Seq<char>, Json)>::empty() =~= so_far);
        }
    }
    *members = out;
}

} // verus!

verus! {

/// Without placeholders a value stays as it is.
pub proof fn lemma_no_placeholders(v: Json, delim: Seq<char>)
    ensures
        substitute(v, delim, Seq::empty()) == v,
    decreases v,
{
    match v {
        Json::Array(items) => {
            let after = substitute(v, delim, Seq::empty())->Array_0;
            assert forall|i: int| 0 <= i < items.len() implies after[i] == items[i] by {
                lemma_no_placeholders(items[i], delim);
            }
            assert(after =~= items);
        },
        Json::Object(members) => {
            let after = substitute(v, delim, Seq::empty())->Object_0;
            assert forall|i: int| 0 <= i < members.len() implies after[i] == members[i] by {
                lemma_no_placeholders(members[i].1, delim);
            }
            assert(after =~= members);
        },
        _ => {},
    }
}

/// The arguments of one instruction, read without placeholders.
pub struct InstructionArgs {
    args: SegmentArgs,
}

impl InstructionArgs {
    /// The names and the values as they were bound.
    pub closed spec fn bindings(&self) -> Seq<(Seq<char>, Json)> {
        self.args.bindings()
    }

    /// There are no placeholders to replace.
    #[verifier::type_invariant]
    spec fn plain(&self) -> bool {
        self.args.replacements().len() == 0
    }

    /// Binds the variables of a definition to what a line of a test gives for
    /// them, as `SegmentArgs::build` does without a configuration.
    pub fn build(
        reference_instruction: &HumaneSegments,
        supplied_instruction: &HumaneSegments,
        supplied_args: &Vec<(String, JsonValue)>,
    ) -> (r: Result<InstructionArgs, HumaneInputError>)
        requires
            bindable(reference_instruction@, supplied_instruction@),
        ensures
            match r {
                Ok(built) => bind(
                    reference_instruction@,
                    supplied_instruction@,
                    members_view(supplied_args@),
                    common_length(reference_instruction@, supplied_instruction@),
                ) == Ok::<Seq<(Seq<char>, Json)>, Seq<char>>(built.bindings()),
                Err(e) => {
                    &&& e matches HumaneInputError::NonexistentArgument { arg, has }
                    &&& bind(
                        reference_instruction@,
                        supplied_instruction@,
                        members_view(supplied_args@),
                        common_length(reference_instruction@, supplied_instruction@),
                    ) == Err::<Seq<(Seq<char>, Json)>, Seq<char>>(arg@)
                    &&& has@ == join_text(names(members_view(supplied_args@)), ", "@)
                },
            },
    {
        match SegmentArgs::build(reference_instruction, supplied_instruction, supplied_args, None) {
            Ok(args) => Ok(InstructionArgs { args }),
            Err(e) => Err(e),
        }
    }

    /// The string bound to `k`. If nothing is bound to `k`, the result is
    /// `NonexistentArgument`; if what is bound is not a string, it is
    /// `IncorrectArgumentType`, which names the type that was found.
    pub fn get_str(&self, k: &str) -> (r: Result<String, HumaneInputError>)
        ensures
            match r {
                Ok(text) => lookup(self.bindings(), k@) == Some(Json::String(text@)),
                Err(e) => match lookup(self.bindings(), k@) {
                    None => {
                        &&& e matches HumaneInputError::NonexistentArgument { arg, has }
                        &&& arg@ == k@
                        &&& has@ == join_text(names(self.bindings()), ", "@)
                    },
                    Some(found) => {
                        &&& !(found is String)
                        &&& e matches HumaneInputError::IncorrectArgumentType {
                            arg,
                            was,
                            expected,
                        }
                        &&& arg@ == k@
                        &&& was@ == argument_type(found)
                        &&& expected@ == "string"@
                    },
                },
            },
    {
        proof {
            use_type_invariant(self);
            match lookup(self.bindings(), k@) {
                Some(v) => {
                    assert(self.args.replacements() =~= Seq::empty());
                    lemma_no_placeholders(v, self.args.delimiter());
                },
                None => {},
            }
        }
        self.args.get_string(k)
    }
}

} // verus!
