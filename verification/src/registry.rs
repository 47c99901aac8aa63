//! The registry of capabilities, indexed by the patterns that define them, and
//! the search for the definitions that come closest to a line that none of
//! them stands for.

use crate::errors::HumaneInputError;
use crate::parser::{parse_segments, parse_spec};
use crate::segments::{pattern_matches, pattern_text, skeleton, HumaneSegments, Segment};
use crate::text::texts;
use vstd::prelude::*;

verus! {

/// Capabilities of one role, each under the pattern that defines it. No two
/// definitions stand for each other.
pub struct Registry<T> {
    pub entries: Vec<(HumaneSegments, T)>,
}

impl<T> Registry<T> {
    /// The definitions, in the order in which they were registered.
    pub open spec fn definitions(&self) -> Seq<Seq<Segment>> {
        Seq::new(self.entries@.len(), |i: int| self.entries@[i].0@)
    }

    /// The capabilities, in the order in which they were registered.
    pub open spec fn capabilities(&self) -> Seq<T> {
        Seq::new(self.entries@.len(), |i: int| self.entries@[i].1)
    }

    /// No two definitions stand for each other.
    pub open spec fn wf(&self) -> bool {
        distinct_definitions(self.definitions())
    }

    /// A registry without capabilities.
    pub fn new() -> (r: Self)
        ensures
            r.definitions().len() == 0,
            r.wf(),
    {
        Registry { entries: Vec::new() }
    }

    /// The number of capabilities.
    pub fn len(&self) -> (r: usize)
        ensures
            r == self.definitions().len(),
    {
        self.entries.len()
    }

    /// The position of the first definition that stands for `invocation`.
    pub fn lookup(&self, invocation: &HumaneSegments) -> (r: Option<usize>)
        ensures
            match r {
                Some(at) => first_match(self.definitions(), invocation@) == Some(at as int) && at
                    < self.definitions().len(),
                None => first_match(self.definitions(), invocation@) is None,
            },
    {
        let mut i: usize = 0;
        while i < self.entries.len()
            invariant
                i <= self.entries.len(),
                forall|j: int|
                    0 <= j < i ==> !pattern_matches(invocation@, #[trigger] self.definitions()[j]),
            decreases self.entries.len() - i,
        {
            if *invocation == self.entries[i].0 {
                proof {
                    assert(pattern_matches(invocation@, self.definitions()[i as int]));
                    lemma_first_match_at(self.definitions(), invocation@, i as int);
                }
                return Some(i);
            }
            i = i + 1;
        }
        proof {
            lemma_first_match_none(self.definitions(), invocation@);
        }
        None
    }

    /// The definition at position `at`.
    pub fn definition(&self, at: usize) -> (r: &HumaneSegments)
        requires
            at < self.definitions().len(),
        ensures
            r@ == self.definitions()[at as int],
    {
        &self.entries[at].0
    }

    /// The capability at position `at`.
    pub fn capability(&self, at: usize) -> (r: &T)
        requires
            at < self.definitions().len(),
        ensures
            *r == self.capabilities()[at as int],
    {
        &self.entries[at].1
    }

    /// Puts `capability` under `definition`. If a definition of the registry
    /// stands for `definition`, the capability takes the place of the one under
    /// the first such definition, which stays as it is; otherwise the two are
    /// added at the end.
    pub fn register(&mut self, definition: HumaneSegments, capability: T)
        requires
            old(self).wf(),
        ensures
            final(self).wf(),
            match first_match(old(self).definitions(), definition@) {
                Some(at) => {
                    &&& final(self).definitions() == old(self).definitions()
                    &&& final(self).capabilities() == old(self).capabilities().update(
                        at,
                        capability,
                    )
                },
                None => {
                    &&& final(self).definitions() == old(self).definitions().push(definition@)
                    &&& final(self).capabilities() == old(self).capabilities().push(capability)
                },
            },
    {
        let ghost before_defs = self.definitions();
        let ghost before_caps = self.capabilities();
        match self.lookup(&definition) {
            Some(at) => {
                let (kept, _) = self.entries.remove(at);
                self.entries.insert(at, (kept, capability));
                proof {
                    assert(self.definitions() =~= before_defs);
                    assert(self.capabilities() =~= before_caps.update(at as int, capability));
                }
            },
            None => {
                self.entries.push((definition, capability));
                proof {
                    assert(self.definitions() =~= before_defs.push(definition@));
                    assert(self.capabilities() =~= before_caps.push(capability));
                    lemma_first_match_is_first(before_defs, definition@);
                    let after = self.definitions();
                    assert forall|i: int, j: int| 0 <= i < j < after.len() implies !pattern_matches(
                        #[trigger] after[i],
                        #[trigger] after[j],
                    ) by {
                        if j == after.len() - 1 {
                            crate::segments::law_matching_is_symmetric(after[i], after[j]);
                        }
                    }
                }
            },
        }
    }

    /// The comparison strings of the definitions, in their order.
    pub fn comparison_strings(&self) -> (r: Vec<String>)
        ensures
            texts(r@) == skeletons(self.definitions()),
    {
        let mut out: Vec<String> = Vec::new();
        let mut i: usize = 0;
        while i < self.entries.len()
            invariant
                i <= self.entries.len(),
                out@.len() == i,
                forall|j: int| 0 <= j < i ==> out@[j]@ == skeleton(self.definitions()[j]),
            decreases self.entries.len() - i,
        {
            out.push(self.entries[i].0.get_comparison_string());
            i = i + 1;
        }
        assert(texts(out@) =~= skeletons(self.definitions()));
        out
    }
}

/// No two of the definitions stand for each other.
pub open spec fn distinct_definitions(definitions: Seq<Seq<Segment>>) -> bool {
    forall|i: int, j: int|
        0 <= i < j < definitions.len() ==> !pattern_matches(
            #[trigger] definitions[i],
            #[trigger] definitions[j],
        )
}

/// The comparison strings of the definitions.
pub open spec fn skeletons(definitions: Seq<Seq<Segment>>) -> Seq<Seq<char>> {
    Seq::new(definitions.len(), |i: int| skeleton(definitions[i]))
}

/// The readable forms of the definitions.
pub open spec fn pattern_texts(definitions: Seq<Seq<Segment>>) -> Seq<Seq<char>> {
    Seq::new(definitions.len(), |i: int| pattern_text(definitions[i]))
}

/// The position of the first definition for which `invocation` stands, if
/// there is one.
pub open spec fn first_match(definitions: Seq<Seq<Segment>>, invocation: Seq<Segment>) -> Option<
    int,
>
    decreases definitions.len(),
{
    if definitions.len() == 0 {
        None
    } else {
        match first_match(definitions.drop_last(), invocation) {
            Some(at) => Some(at),
            None => if pattern_matches(invocation, definitions.last()) {
                Some(definitions.len() - 1)
            } else {
                None
            },
        }
    }
}

/// `first_match` finds a definition for which the line stands, and none
/// before it does.
pub proof fn lemma_first_match_is_first(definitions: Seq<Seq<Segment>>, invocation: Seq<Segment>)
    ensures
        match first_match(definitions, invocation) {
            Some(at) => 0 <= at < definitions.len() && pattern_matches(invocation, definitions[at])
                && forall|j: int|
                0 <= j < at ==> !pattern_matches(invocation, #[trigger] definitions[j]),
            None => forall|j: int|
                0 <= j < definitions.len() ==> !pattern_matches(
                    invocation,
                    #[trigger] definitions[j],
                ),
        },
    decreases definitions.len(),
{
    if definitions.len() > 0 {
        let shorter = definitions.drop_last();
        lemma_first_match_is_first(shorter, invocation);
        assert forall|j: int| 0 <= j < shorter.len() implies shorter[j] == definitions[j] by {}
        match first_match(shorter, invocation) {
            Some(at) => {
                assert(shorter[at] == definitions[at]);
                assert forall|j: int| 0 <= j < at implies !pattern_matches(
                    invocation,
                    #[trigger] definitions[j],
                ) by {
                    assert(shorter[j] == definitions[j]);
                }
            },
            None => {
                assert forall|j: int| 0 <= j < shorter.len() implies !pattern_matches(
                    invocation,
                    #[trigger] definitions[j],
                ) by {
                    assert(shorter[j] == definitions[j]);
                }
            },
        }
    }
}

/// The first position at which the line stands for a definition is what
/// `first_match` finds.
pub proof fn lemma_first_match_at(
    definitions: Seq<Seq<Segment>>,
    invocation: Seq<Segment>,
    at: int,
)
    requires
        0 <= at < definitions.len(),
        pattern_matches(invocation, definitions[at]),
        forall|j: int| 0 <= j < at ==> !pattern_matches(invocation, #[trigger] definitions[j]),
    ensures
        first_match(definitions, invocation) == Some(at),
    decreases definitions.len(),
{
    lemma_first_match_is_first(definitions, invocation);
    match first_match(definitions, invocation) {
        Some(found) => {
            if found < at {
                assert(!pattern_matches(invocation, definitions[found]));
            } else if at < found {
                assert(!pattern_matches(invocation, definitions[at]));
            }
        },
        None => {
            assert(!pattern_matches(invocation, definitions[at]));
        },
    }
}

/// Where the line stands for no definition, `first_match` finds nothing.
pub proof fn lemma_first_match_none(definitions: Seq<Seq<Segment>>, invocation: Seq<Segment>)
    requires
        forall|j: int|
            0 <= j < definitions.len() ==> !pattern_matches(invocation, #[trigger] definitions[j]),
    ensures
        first_match(definitions, invocation) is None,
{
    lemma_first_match_is_first(definitions, invocation);
    match first_match(definitions, invocation) {
        Some(found) => {
            assert(!pattern_matches(invocation, definitions[found]));
        },
        None => {},
    }
}

} // verus!

verus! {

/// A line for which one of the definitions stands finds a capability, and the
/// definition under which it finds it stands for the line.
pub proof fn law_lookup_finds_what_matches(
    definitions: Seq<Seq<Segment>>,
    invocation: Seq<Segment>,
    at: int,
)
    requires
        0 <= at < definitions.len(),
        pattern_matches(invocation, definitions[at]),
    ensures
        first_match(definitions, invocation) matches Some(found) && 0 <= found <= at
            && pattern_matches(invocation, definitions[found]),
{
    lemma_first_match_is_first(definitions, invocation);
    match first_match(definitions, invocation) {
        Some(found) => {
            if found > at {
                assert(!pattern_matches(invocation, definitions[at]));
            }
        },
        None => {
            assert(!pattern_matches(invocation, definitions[at]));
        },
    }
}

/// Where no two definitions stand for each other and none holds a quoted
/// value, a line finds the same capability wherever it stands among the
/// definitions: at most one definition stands for it.
pub proof fn law_one_definition_per_line(
    definitions: Seq<Seq<Segment>>,
    invocation: Seq<Segment>,
    a: int,
    b: int,
)
    requires
        distinct_definitions(definitions),
        0 <= a < definitions.len(),
        0 <= b < definitions.len(),
        crate::segments::value_free(definitions[a]),
        crate::segments::value_free(definitions[b]),
        pattern_matches(invocation, definitions[a]),
        pattern_matches(invocation, definitions[b]),
    ensures
        a == b,
{
    let first = definitions[a];
    let second = definitions[b];
    assert forall|i: int| 0 <= i < first.len() implies crate::segments::segment_matches(
        #[trigger] first[i],
        second[i],
    ) by {
        assert(crate::segments::segment_matches(invocation[i], first[i]));
        assert(crate::segments::segment_matches(invocation[i], second[i]));
        assert(!(first[i] is Value));
        assert(!(second[i] is Value));
    }
    assert(pattern_matches(first, second));
    if a < b {
        assert(!pattern_matches(definitions[a], definitions[b]));
    } else if b < a {
        crate::segments::law_matching_is_symmetric(first, second);
        assert(!pattern_matches(definitions[b], definitions[a]));
    }
}

} // verus!

verus! {

/// The definitions after a capability has been put under the pattern that
/// `pattern` is read as: as they were if one of them stands for the pattern,
/// and with the pattern at their end otherwise. Nothing if the pattern cannot
/// be read.
pub open spec fn enrolled(definitions: Seq<Seq<Segment>>, pattern: Seq<char>) -> Option<
    Seq<Seq<Segment>>,
> {
    match parse_spec(pattern) {
        Err(_) => None,
        Ok(definition) => if first_match(definitions, definition) is Some {
            Some(definitions)
        } else {
            Some(definitions.push(definition))
        },
    }
}

/// The definitions of a registry into which the first `n` patterns have been
/// put, one after the other. Nothing if one of them cannot be read.
pub open spec fn enrolled_all(patterns: Seq<Seq<char>>, n: int) -> Option<Seq<Seq<Segment>>>
    decreases n,
{
    if n <= 0 || n > patterns.len() {
        Some(Seq::empty())
    } else {
        match enrolled_all(patterns, n - 1) {
            None => None,
            Some(definitions) => enrolled(definitions, patterns[n - 1]),
        }
    }
}

/// The patterns under which the capabilities of a list are declared.
pub open spec fn declared_patterns<T>(capabilities: Seq<(&'static str, T)>) -> Seq<Seq<char>> {
    Seq::new(capabilities.len(), |i: int| capabilities[i].0@)
}

/// The definitions and the capabilities of a registry after a capability has
/// been put under the pattern that `pattern` is read as: the capability takes
/// the place of the one under the first definition that stands for the
/// pattern, or the two are added at the end. Nothing if the pattern cannot be
/// read.
pub open spec fn enrolled_with<T>(
    definitions: Seq<Seq<Segment>>,
    capabilities: Seq<T>,
    pattern: Seq<char>,
    capability: T,
) -> Option<(Seq<Seq<Segment>>, Seq<T>)> {
    match parse_spec(pattern) {
        Err(_) => None,
        Ok(definition) => match first_match(definitions, definition) {
            Some(at) => Some((definitions, capabilities.update(at, capability))),
            None => Some((definitions.push(definition), capabilities.push(capability))),
        },
    }
}

/// The definitions and the capabilities of a registry into which the first `n`
/// declared capabilities have been put, one after the other. Nothing if the
/// pattern of one of them cannot be read.
pub open spec fn enrolled_pairs<T>(declared: Seq<(&'static str, T)>, n: int) -> Option<
    (Seq<Seq<Segment>>, Seq<T>),
>
    decreases n,
{
    if n <= 0 || n > declared.len() {
        Some((Seq::empty(), Seq::empty()))
    } else {
        match enrolled_pairs(declared, n - 1) {
            None => None,
            Some((definitions, capabilities)) => enrolled_with(
                definitions,
                capabilities,
                declared[n - 1].0@,
                declared[n - 1].1,
            ),
        }
    }
}

/// The definitions of a registry depend on the patterns alone.
pub proof fn lemma_enrolled_definitions<T>(declared: Seq<(&'static str, T)>, n: int)
    requires
        0 <= n <= declared.len(),
    ensures
        match enrolled_pairs(declared, n) {
            Some((definitions, _)) => enrolled_all(declared_patterns(declared), n) == Some(
                definitions,
            ),
            None => enrolled_all(declared_patterns(declared), n) is None,
        },
    decreases n,
{
    if n > 0 {
        lemma_enrolled_definitions(declared, n - 1);
        assert(declared_patterns(declared)[n - 1] == declared[n - 1].0@);
    }
}

/// Once one of the first patterns cannot be read, the whole list cannot.
pub proof fn lemma_enrolled_pairs_none_stays<T>(
    declared: Seq<(&'static str, T)>,
    n: int,
    total: int,
)
    requires
        1 <= n <= total <= declared.len(),
        enrolled_pairs(declared, n) is None,
    ensures
        enrolled_pairs(declared, total) is None,
    decreases total - n,
{
    if n < total {
        lemma_enrolled_pairs_none_stays(declared, n + 1, total);
    }
}

impl<T> Registry<T> {
    /// Puts `capability` under the pattern that `pattern` is read as. If a
    /// definition of the registry stands for that pattern, the capability
    /// takes the place of the one under the first such definition; otherwise
    /// the two are added at the end. A pattern that cannot be read is refused
    /// with the error of the reading, and the registry stays as it is.
    pub fn enroll(&mut self, pattern: &str, capability: T) -> (r: Result<(), HumaneInputError>)
        requires
            old(self).wf(),
        ensures
            final(self).wf(),
            match enrolled_with(
                old(self).definitions(),
                old(self).capabilities(),
                pattern@,
                capability,
            ) {
                Some((definitions, capabilities)) => {
                    &&& r is Ok
                    &&& final(self).definitions() == definitions
                    &&& final(self).capabilities() == capabilities
                },
                None => {
                    &&& r matches Err(e)
                    &&& e is UnclosedValue
                    &&& final(self).definitions() == old(self).definitions()
                    &&& final(self).capabilities() == old(self).capabilities()
                },
            },
    {
        let definition = match parse_segments(pattern) {
            Ok(definition) => definition,
            Err(e) => {
                return Err(e);
            },
        };
        self.register(definition, capability);
        Ok(())
    }
}

/// Adds a capability with the pattern under which it is declared at the end
/// of a list.
pub fn declare<T>(list: &mut Vec<(&'static str, T)>, pattern: &'static str, capability: T)
    ensures
        declared_patterns(final(list)@) == declared_patterns(old(list)@).push(pattern@),
{
    list.push((pattern, capability));
    assert(declared_patterns(list@) =~= declared_patterns(old(list)@).push(pattern@));
}

/// Puts each capability under the pattern with which it is declared, in the
/// order of the list; of two whose patterns stand for each other the later
/// one takes the place of the earlier. A pattern that cannot be read is
/// refused with the error of the reading.
pub fn index_declared<T>(capabilities: Vec<(&'static str, T)>) -> (r: Result<
    Registry<T>,
    HumaneInputError,
>)
    ensures
        match enrolled_pairs(capabilities@, capabilities@.len() as int) {
            Some((definitions, enrolled_capabilities)) => {
                &&& r matches Ok(registry)
                &&& registry.wf()
                &&& registry.definitions() == definitions
                &&& registry.capabilities() == enrolled_capabilities
                &&& enrolled_all(declared_patterns(capabilities@), capabilities@.len() as int)
                    == Some(definitions)
            },
            None => {
                &&& r matches Err(e)
                &&& e is UnclosedValue
                &&& enrolled_all(declared_patterns(capabilities@), capabilities@.len() as int)
                    is None
            },
        },
{
    let ghost declared = capabilities@;
    let ghost total = capabilities@.len() as int;
    let mut rest = capabilities;
    assert(total == rest.len());
    let mut registry: Registry<T> = Registry::new();
    let mut done: usize = 0;
    assert(registry.definitions() =~= Seq::<Seq<Segment>>::empty());
    assert(registry.capabilities() =~= Seq::<T>::empty());
    while rest.len() > 0
        invariant
            registry.wf(),
            declared == capabilities@,
            total == capabilities@.len(),
            total <= usize::MAX,
            done + rest@.len() == total,
            rest@ == declared.subrange(done as int, total),
            enrolled_pairs(declared, done as int) == Some(
                (registry.definitions(), registry.capabilities()),
            ),
        decreases rest@.len(),
    {
        let ghost before = rest@;
        let (pattern, capability) = rest.remove(0);
        proof {
            assert(before[0] == (pattern, capability));
            assert(declared[done as int] == before[0]);
            assert(rest@ =~= declared.subrange(done + 1, total));
        }
        match registry.enroll(pattern, capability) {
            Ok(()) => {},
            Err(e) => {
                proof {
                    lemma_enrolled_pairs_none_stays(declared, done + 1, total);
                    lemma_enrolled_definitions(declared, total);
                }
                return Err(e);
            },
        }
        done = done + 1;
    }
    proof {
        lemma_enrolled_definitions(declared, total);
    }
    Ok(registry)
}

} // verus!
