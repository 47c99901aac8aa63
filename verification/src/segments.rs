//! The pattern language: a line of a test is an ordered sequence of literal
//! text, quoted values and named variables.

use crate::json::{json_text, to_json_text, Json, JsonValue};
use crate::text::{chars_of, has_char};
use vstd::prelude::*;

verus! {

/// One token of a parsed line.
#[derive(Debug, PartialEq)]
pub enum HumaneSegment {
    /// Fixed wording.
    Literal(String),
    /// An argument supplied inline, in quotes.
    Value(JsonValue),
    /// A named placeholder.
    Variable(String),
}

/// The mathematical value of a [`HumaneSegment`].
pub enum Segment {
    Literal(Seq<char>),
    Value(Json),
    Variable(Seq<char>),
}

impl View for HumaneSegment {
    type V = Segment;

    open spec fn view(&self) -> Segment {
        match self {
            HumaneSegment::Literal(text) => Segment::Literal(text@),
            HumaneSegment::Value(value) => Segment::Value(value@),
            HumaneSegment::Variable(name) => Segment::Variable(name@),
        }
    }
}

impl Clone for HumaneSegment {
    fn clone(&self) -> (r: Self)
        ensures
            r@ == self@,
    {
        match self {
            HumaneSegment::Literal(text) => HumaneSegment::Literal(text.clone()),
            HumaneSegment::Value(value) => HumaneSegment::Value(value.clone()),
            HumaneSegment::Variable(name) => HumaneSegment::Variable(name.clone()),
        }
    }
}

/// One line of a test, or the definition of a capability.
#[derive(Debug)]
pub struct HumaneSegments {
    pub segments: Vec<HumaneSegment>,
}

/// The values of a sequence of segments.
pub open spec fn segments_view(segments: Seq<HumaneSegment>) -> Seq<Segment> {
    Seq::new(segments.len(), |i: int| segments[i]@)
}

impl View for HumaneSegments {
    type V = Seq<Segment>;

    open spec fn view(&self) -> Seq<Segment> {
        segments_view(self.segments@)
    }
}

impl Clone for HumaneSegments {
    fn clone(&self) -> (r: Self)
        ensures
            r@ == self@,
    {
        let mut out: Vec<HumaneSegment> = Vec::new();
        let mut i: usize = 0;
        while i < self.segments.len()
            invariant
                i <= self.segments.len(),
                out@.len() == i,
                forall|j: int| 0 <= j < i ==> out@[j]@ == self.segments@[j]@,
            decreases self.segments.len() - i,
        {
            out.push(self.segments[i].clone());
            i = i + 1;
        }
        let r = HumaneSegments { segments: out };
        assert(r@ =~= self@);
        r
    }
}

/// Two segments stand for each other: the same literal text, or two
/// placeholders of which at least one is a variable. A value never stands for
/// a value, and a placeholder never for a literal.
pub open spec fn segment_matches(a: Segment, b: Segment) -> bool {
    match (a, b) {
        (Segment::Literal(x), Segment::Literal(y)) => x == y,
        (Segment::Literal(_), _) => false,
        (_, Segment::Literal(_)) => false,
        (Segment::Value(_), Segment::Value(_)) => false,
        _ => true,
    }
}

/// Two patterns stand for each other: they have the same length and their
/// segments stand for each other position by position.
pub open spec fn pattern_matches(a: Seq<Segment>, b: Seq<Segment>) -> bool {
    &&& a.len() == b.len()
    &&& forall|i: int| 0 <= i < a.len() ==> segment_matches(#[trigger] a[i], b[i])
}

/// No segment of the pattern is a quoted value.
pub open spec fn value_free(p: Seq<Segment>) -> bool {
    forall|i: int| 0 <= i < p.len() ==> !(#[trigger] p[i] is Value)
}

/// What a segment gives to a hash: its text if it is a literal, and one marker
/// for every placeholder.
pub open spec fn hash_atom(s: Segment) -> Option<Seq<char>> {
    match s {
        Segment::Literal(text) => Some(text),
        _ => None,
    }
}

/// What a pattern gives to a hash.
pub open spec fn hash_atoms(p: Seq<Segment>) -> Seq<Option<Seq<char>>> {
    Seq::new(p.len(), |i: int| hash_atom(p[i]))
}

/// The texts of a list of optional strings.
pub open spec fn atoms_view(atoms: Seq<Option<String>>) -> Seq<Option<Seq<char>>> {
    Seq::new(
        atoms.len(),
        |i: int|
            match atoms[i] {
                Some(text) => Some(text@),
                None => None,
            },
    )
}

/// The marker that stands for every placeholder in a comparison string.
pub open spec fn placeholder_marker() -> Seq<char> {
    "{___}"@
}

/// What a segment adds to the comparison string of its pattern.
pub open spec fn skeleton_piece(s: Segment) -> Seq<char> {
    match s {
        Segment::Literal(text) => text,
        _ => placeholder_marker(),
    }
}

/// The comparison string of a pattern: its literal text with every placeholder
/// replaced by the marker.
pub open spec fn skeleton(p: Seq<Segment>) -> Seq<char>
    decreases p.len(),
{
    if p.len() == 0 {
        Seq::empty()
    } else {
        skeleton(p.drop_last()) + skeleton_piece(p.last())
    }
}

/// The readable form of a quoted value: a string in double quotes, or in single
/// quotes if it holds a double quote; any other value as its JSON text in
/// double quotes.
pub open spec fn value_text(v: Json) -> Seq<char> {
    match v {
        Json::String(text) => if text.contains('"') {
            seq!['\''] + text + seq!['\'']
        } else {
            seq!['"'] + text + seq!['"']
        },
        _ => seq!['"'] + json_text(v) + seq!['"'],
    }
}

/// The readable form of a segment.
pub open spec fn segment_text(s: Segment) -> Seq<char> {
    match s {
        Segment::Literal(text) => text,
        Segment::Value(v) => value_text(v),
        Segment::Variable(name) => seq!['{'] + name + seq!['}'],
    }
}

/// The readable form of a pattern.
pub open spec fn pattern_text(p: Seq<Segment>) -> Seq<char>
    decreases p.len(),
{
    if p.len() == 0 {
        Seq::empty()
    } else {
        pattern_text(p.drop_last()) + segment_text(p.last())
    }
}

impl HumaneSegment {
    /// Whether the two segments stand for each other.
    pub fn matches(&self, other: &HumaneSegment) -> (r: bool)
        ensures
            r == segment_matches(self@, other@),
    {
        match self {
            HumaneSegment::Literal(x) => match other {
                HumaneSegment::Literal(y) => *x == *y,
                _ => false,
            },
            HumaneSegment::Value(_) => match other {
                HumaneSegment::Variable(_) => true,
                _ => false,
            },
            HumaneSegment::Variable(_) => match other {
                HumaneSegment::Literal(_) => false,
                _ => true,
            },
        }
    }
}

impl PartialEq for HumaneSegments {
    fn eq(&self, other: &Self) -> (r: bool) {
        if self.segments.len() != other.segments.len() {
            return false;
        }
        let mut i: usize = 0;
        while i < self.segments.len()
            invariant
                i <= self.segments.len(),
                self.segments.len() == other.segments.len(),
                forall|j: int| 0 <= j < i ==> segment_matches(#[trigger] self@[j], other@[j]),
            decreases self.segments.len() - i,
        {
            if !self.segments[i].matches(&other.segments[i]) {
                assert(!segment_matches(self@[i as int], other@[i as int]));
                return false;
            }
            i = i + 1;
        }
        true
    }
}

impl vstd::std_specs::cmp::PartialEqSpecImpl for HumaneSegments {
    open spec fn obeys_eq_spec() -> bool {
        true
    }

    open spec fn eq_spec(&self, other: &Self) -> bool {
        pattern_matches(self@, other@)
    }
}

impl Eq for HumaneSegments {

}

/// `std::hash::Hash::hash` of a list of optional strings: feeds the list to
/// `state`. Nothing is claimed of the state afterwards.
#[verifier::external_body]
fn feed_atoms<H: std::hash::Hasher>(atoms: &Vec<Option<String>>, state: &mut H) {
    std::hash::Hash::hash(atoms, state)
}

impl std::hash::Hash for HumaneSegments {
    /// Feeds what `hash_key` gives, and nothing else, so that patterns that
    /// stand for each other hash alike.
    fn hash<H: std::hash::Hasher>(&self, state: &mut H) {
        let atoms = self.hash_key();
        feed_atoms(&atoms, state);
    }
}

impl HumaneSegments {
    /// What the pattern gives to a hash: the text of each literal, and one
    /// marker for every placeholder.
    pub fn hash_key(&self) -> (r: Vec<Option<String>>)
        ensures
            atoms_view(r@) == hash_atoms(self@),
    {
        let mut out: Vec<Option<String>> = Vec::new();
        let mut i: usize = 0;
        while i < self.segments.len()
            invariant
                i <= self.segments.len(),
                out@.len() == i,
                forall|j: int| 0 <= j < i ==> atoms_view(out@)[j] == hash_atom(self@[j]),
            decreases self.segments.len() - i,
        {
            let ghost before = out@;
            match &self.segments[i] {
                HumaneSegment::Literal(text) => {
                    out.push(Some(text.clone()));
                },
                _ => {
                    out.push(None);
                },
            }
            proof {
                assert forall|j: int| 0 <= j < i + 1 implies atoms_view(out@)[j] == hash_atom(
                    self@[j],
                ) by {
                    if j < i {
                        assert(out@[j] == before[j]);
                        assert(atoms_view(before)[j] == hash_atom(self@[j]));
                    }
                }
            }
            i = i + 1;
        }
        assert(atoms_view(out@) =~= hash_atoms(self@));
        out
    }

    /// The comparison string of the pattern.
    pub fn get_comparison_string(&self) -> (r: String)
        ensures
            r@ == skeleton(self@),
    {
        let mut out = String::new();
        let mut i: usize = 0;
        assert(self@.subrange(0, 0) =~= Seq::<Segment>::empty());
        while i < self.segments.len()
            invariant
                i <= self.segments.len(),
                out@ == skeleton(self@.subrange(0, i as int)),
            decreases self.segments.len() - i,
        {
            proof {
                let next = self@.subrange(0, i + 1);
                assert(next.drop_last() =~= self@.subrange(0, i as int));
                assert(next.last() == self@[i as int]);
            }
            match &self.segments[i] {
                HumaneSegment::Literal(text) => {
                    out.append(text.as_str());
                },
                _ => {
                    out.append("{___}");
                },
            }
            i = i + 1;
        }
        assert(self@.subrange(0, self@.len() as int) =~= self@);
        out
    }

    /// The readable form of the pattern.
    pub fn get_as_string(&self) -> (r: String)
        ensures
            r@ == pattern_text(self@),
    {
        let mut out = String::new();
        let mut i: usize = 0;
        assert(self@.subrange(0, 0) =~= Seq::<Segment>::empty());
        while i < self.segments.len()
            invariant
                i <= self.segments.len(),
                out@ == pattern_text(self@.subrange(0, i as int)),
            decreases self.segments.len() - i,
        {
            proof {
                let next = self@.subrange(0, i + 1);
                assert(next.drop_last() =~= self@.subrange(0, i as int));
                assert(next.last() == self@[i as int]);
            }
            let ghost before = out@;
            match &self.segments[i] {
                HumaneSegment::Literal(text) => {
                    out.append(text.as_str());
                },
                HumaneSegment::Value(value) => {
                    let piece = value_as_text(value);
                    out.append(piece.as_str());
                },
                HumaneSegment::Variable(name) => {
                    out.push('{');
                    out.append(name.as_str());
                    out.push('}');
                    assert(out@ =~= before + (seq!['{'] + name@ + seq!['}']));
                },
            }
            i = i + 1;
        }
        assert(self@.subrange(0, self@.len() as int) =~= self@);
        out
    }
}

/// The readable form of a quoted value.
pub fn value_as_text(value: &JsonValue) -> (r: String)
    ensures
        r@ == value_text(value@),
{
    let mut out = String::new();
    match value {
        JsonValue::String(text) => {
            let chars = chars_of(text.as_str());
            let quote = if has_char(&chars, '"') {
                '\''
            } else {
                '"'
            };
            out.push(quote);
            out.append(text.as_str());
            out.push(quote);
            assert(out@ =~= seq![quote] + text@ + seq![quote]);
        },
        _ => {
            let body = to_json_text(value);
            out.push('"');
            out.append(body.as_str());
            out.push('"');
            assert(out@ =~= seq!['"'] + json_text(value@) + seq!['"']);
        },
    }
    out
}

} // verus!

verus! {

/// A pattern without quoted values stands for itself.
pub proof fn law_matching_is_reflexive(a: Seq<Segment>)
    requires
        value_free(a),
    ensures
        pattern_matches(a, a),
{
}

/// If one pattern stands for another, the other stands for the first.
pub proof fn law_matching_is_symmetric(a: Seq<Segment>, b: Seq<Segment>)
    ensures
        pattern_matches(a, b) == pattern_matches(b, a),
{
    if pattern_matches(a, b) {
        assert forall|i: int| 0 <= i < b.len() implies segment_matches(#[trigger] b[i], a[i]) by {
            assert(segment_matches(a[i], b[i]));
        }
    }
    if pattern_matches(b, a) {
        assert forall|i: int| 0 <= i < a.len() implies segment_matches(#[trigger] a[i], b[i]) by {
            assert(segment_matches(b[i], a[i]));
        }
    }
}

/// A pattern `a` without quoted values stands for a pattern `b` of the same
/// length exactly when the literals of both are at the same positions and hold
/// the same text, so that every placeholder of `b` faces a variable of `a`.
pub proof fn law_matching_by_position(a: Seq<Segment>, b: Seq<Segment>)
    requires
        value_free(a),
        a.len() == b.len(),
    ensures
        pattern_matches(a, b) <==> (forall|i: int|
            0 <= i < a.len() ==> {
                &&& (#[trigger] a[i] is Literal <==> b[i] is Literal)
                &&& (a[i] is Literal ==> a[i] == b[i])
                &&& (!(b[i] is Literal) ==> a[i] is Variable)
            }),
{
    if pattern_matches(a, b) {
        assert forall|i: int| 0 <= i < a.len() implies {
            &&& (#[trigger] a[i] is Literal <==> b[i] is Literal)
            &&& (a[i] is Literal ==> a[i] == b[i])
            &&& (!(b[i] is Literal) ==> a[i] is Variable)
        } by {
            assert(segment_matches(a[i], b[i]));
        }
    }
}

/// Matching is not transitive: a variable stands for two quoted values that do
/// not stand for each other.
pub proof fn law_matching_is_not_transitive()
    ensures
        exists|a: Seq<Segment>, b: Seq<Segment>, c: Seq<Segment>|
            pattern_matches(a, b) && pattern_matches(b, c) && !pattern_matches(a, c),
{
    let a = seq![Segment::Value(Json::Null)];
    let b = seq![Segment::Variable(Seq::<char>::empty())];
    let c = seq![Segment::Value(Json::Bool(true))];
    assert(pattern_matches(a, b));
    assert(pattern_matches(b, c));
    assert(!segment_matches(a[0], c[0]));
    assert(!pattern_matches(a, c));
}

/// Patterns that stand for each other give the same to a hash.
pub proof fn law_matching_patterns_hash_alike(a: Seq<Segment>, b: Seq<Segment>)
    requires
        pattern_matches(a, b),
    ensures
        hash_atoms(a) == hash_atoms(b),
{
    assert forall|i: int| 0 <= i < a.len() implies hash_atom(a[i]) == hash_atom(b[i]) by {
        assert(segment_matches(a[i], b[i]));
    }
    assert(hash_atoms(a) =~= hash_atoms(b));
}

} // verus!
