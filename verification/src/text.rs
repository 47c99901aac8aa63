//! Text as sequences of characters: searching, replacing, splitting and joining.

use vstd::prelude::*;

verus! {

/// `std::string::String::push` appends one character to the end of the string.
pub assume_specification[ std::string::String::push ](s: &mut std::string::String, c: char)
    ensures
        final(s)@ == old(s)@.push(c),
;

/// The characters of `s`, in order.
pub fn chars_of(s: &str) -> (r: Vec<char>)
    ensures
        r@ == s@,
{
    let mut out: Vec<char> = Vec::new();
    for c in it: s.chars()
        invariant
            out@ == it.seq().subrange(0, it.index() as int),
            it.seq() == s@,
    {
        out.push(c);
    }
    out
}

/// The string made of `chars`, in order.
pub fn text_of(chars: &Vec<char>) -> (r: String)
    ensures
        r@ == chars@,
{
    let mut out = String::new();
    let mut i: usize = 0;
    while i < chars.len()
        invariant
            i <= chars.len(),
            out@ == chars@.subrange(0, i as int),
        decreases chars.len() - i,
    {
        out.push(chars[i]);
        i = i + 1;
    }
    out
}

/// The string made of `chars[from..to]`.
pub fn text_of_range(chars: &Vec<char>, from: usize, to: usize) -> (r: String)
    requires
        from <= to <= chars.len(),
    ensures
        r@ == chars@.subrange(from as int, to as int),
{
    let mut out = String::new();
    let mut i: usize = from;
    while i < to
        invariant
            from <= i <= to <= chars.len(),
            out@ == chars@.subrange(from as int, i as int),
        decreases to - i,
    {
        out.push(chars[i]);
        i = i + 1;
    }
    out
}

/// Appends `extra` to the end of `out`.
pub fn push_all(out: &mut Vec<char>, extra: &Vec<char>)
    ensures
        final(out)@ == old(out)@ + extra@,
{
    let mut i: usize = 0;
    while i < extra.len()
        invariant
            i <= extra.len(),
            out@ == old(out)@ + extra@.subrange(0, i as int),
        decreases extra.len() - i,
    {
        out.push(extra[i]);
        i = i + 1;
    }
}

/// `needle` stands in `hay` at position `at`.
pub open spec fn occurs_at(hay: Seq<char>, needle: Seq<char>, at: int) -> bool {
    &&& 0 <= at
    &&& at + needle.len() <= hay.len()
    &&& hay.subrange(at, at + needle.len()) == needle
}

/// `needle` stands somewhere in `hay`.
pub open spec fn contains_text(hay: Seq<char>, needle: Seq<char>) -> bool {
    exists|at: int| occurs_at(hay, needle, at)
}

/// `at` is the first position not before `from` at which `needle` stands in `hay`.
pub open spec fn first_occurrence(hay: Seq<char>, needle: Seq<char>, from: int, at: int) -> bool {
    &&& from <= at
    &&& occurs_at(hay, needle, at)
    &&& forall|j: int| from <= j < at ==> !occurs_at(hay, needle, j)
}

/// Whether `needle` stands in `hay` at position `at`.
pub fn occurs_at_index(hay: &Vec<char>, needle: &Vec<char>, at: usize) -> (r: bool)
    ensures
        r == occurs_at(hay@, needle@, at as int),
{
    if at > hay.len() || needle.len() > hay.len() - at {
        return false;
    }
    let mut k: usize = 0;
    while k < needle.len()
        invariant
            k <= needle.len(),
            at + needle.len() <= hay.len(),
            forall|j: int| 0 <= j < k ==> hay@[at + j] == needle@[j],
        decreases needle.len() - k,
    {
        if hay[at + k] != needle[k] {
            proof {
                let sub = hay@.subrange(at as int, at + needle.len());
                assert(sub[k as int] == hay@[at + k]);
            }
            return false;
        }
        k = k + 1;
    }
    assert(hay@.subrange(at as int, at + needle.len()) =~= needle@);
    true
}

/// The first position not before `from` at which `needle` stands in `hay`, if any.
pub fn find_text(hay: &Vec<char>, needle: &Vec<char>, from: usize) -> (r: Option<usize>)
    ensures
        match r {
            Some(at) => first_occurrence(hay@, needle@, from as int, at as int) && at
                + needle.len() <= hay.len(),
            None => forall|j: int| from <= j ==> !occurs_at(hay@, needle@, j),
        },
{
    if from > hay.len() {
        return None;
    }
    let mut i: usize = from;
    while i < hay.len()
        invariant
            from <= i <= hay.len(),
            forall|j: int| from <= j < i ==> !occurs_at(hay@, needle@, j),
        decreases hay.len() - i,
    {
        if occurs_at_index(hay, needle, i) {
            return Some(i);
        }
        i = i + 1;
    }
    if occurs_at_index(hay, needle, i) {
        return Some(i);
    }
    None
}

/// Whether `needle` stands somewhere in `hay`.
pub fn contains(hay: &Vec<char>, needle: &Vec<char>) -> (r: bool)
    ensures
        r == contains_text(hay@, needle@),
{
    match find_text(hay, needle, 0) {
        Some(at) => true,
        None => {
            assert forall|j: int| !occurs_at(hay@, needle@, j) by {
                if j < 0 {
                }
            }
            false
        },
    }
}

/// Whether `s` stands somewhere in `hay`.
pub fn str_contains(hay: &str, needle: &str) -> (r: bool)
    ensures
        r == contains_text(hay@, needle@),
{
    let h = chars_of(hay);
    let n = chars_of(needle);
    contains(&h, &n)
}

/// Whether `s` ends with `suffix`.
pub open spec fn ends_with(s: Seq<char>, suffix: Seq<char>) -> bool {
    suffix.len() <= s.len() && s.subrange(s.len() - suffix.len(), s.len() as int) == suffix
}

/// Whether `s` ends with `suffix`.
pub fn has_suffix(s: &Vec<char>, suffix: &Vec<char>) -> (r: bool)
    ensures
        r == ends_with(s@, suffix@),
{
    if suffix.len() > s.len() {
        return false;
    }
    occurs_at_index(s, suffix, s.len() - suffix.len())
}

/// `s` with every occurrence of `from` replaced by `to`, taking occurrences from
/// the left and never inside an earlier one. An empty `from` stands before every
/// character and at the end.
pub open spec fn replace_text(s: Seq<char>, from: Seq<char>, to: Seq<char>) -> Seq<char>
    decreases s.len(),
{
    if s.len() == 0 {
        if from.len() == 0 {
            to
        } else {
            s
        }
    } else if from.len() == 0 {
        to + seq![s[0]] + replace_text(s.subrange(1, s.len() as int), from, to)
    } else if occurs_at(s, from, 0) {
        to + replace_text(s.subrange(from.len() as int, s.len() as int), from, to)
    } else {
        seq![s[0]] + replace_text(s.subrange(1, s.len() as int), from, to)
    }
}

/// Replacing a text that does not occur changes nothing.
pub proof fn lemma_replace_absent(s: Seq<char>, from: Seq<char>, to: Seq<char>)
    requires
        !contains_text(s, from),
    ensures
        replace_text(s, from, to) == s,
    decreases s.len(),
{
    if from.len() == 0 {
        assert(s.subrange(0, 0) =~= from);
        assert(occurs_at(s, from, 0));
    } else if s.len() == 0 {
    } else {
        assert(!occurs_at(s, from, 0));
        let rest = s.subrange(1, s.len() as int);
        assert forall|at: int| !occurs_at(rest, from, at) by {
            if occurs_at(rest, from, at) {
                assert(s.subrange(at + 1, at + 1 + from.len()) =~= rest.subrange(
                    at,
                    at + from.len(),
                ));
                assert(occurs_at(s, from, at + 1));
            }
        }
        lemma_replace_absent(rest, from, to);
        assert(seq![s[0]] + rest =~= s);
    }
}

/// `s` with every occurrence of `from` replaced by `to`.
pub fn replace(s: &Vec<char>, from: &Vec<char>, to: &Vec<char>) -> (r: Vec<char>)
    ensures
        r@ == replace_text(s@, from@, to@),
{
    let mut out: Vec<char> = Vec::new();
    let mut i: usize = 0;
    proof {
        assert(s@.subrange(0, s.len() as int) =~= s@);
        assert(out@ + replace_text(s@, from@, to@) =~= replace_text(s@, from@, to@));
    }
    while i < s.len()
        invariant
            i <= s.len(),
            out@ + replace_text(s@.subrange(i as int, s.len() as int), from@, to@) == replace_text(
                s@,
                from@,
                to@,
            ),
        decreases s.len() - i,
    {
        let ghost rest = s@.subrange(i as int, s.len() as int);
        let ghost before = out@;
        if from.len() == 0 {
            push_all(&mut out, to);
            out.push(s[i]);
            proof {
                assert(rest.subrange(1, rest.len() as int) =~= s@.subrange(i + 1, s.len() as int));
                assert(out@ =~= before + (to@ + seq![rest[0]]));
                assert(out@ + replace_text(s@.subrange(i + 1, s.len() as int), from@, to@)
                    =~= before + replace_text(rest, from@, to@));
            }
            i = i + 1;
        } else if occurs_at_index(s, from, i) {
            push_all(&mut out, to);
            proof {
                assert(rest.subrange(0, from.len() as int) =~= s@.subrange(
                    i as int,
                    i + from.len(),
                ));
                assert(occurs_at(rest, from@, 0));
                assert(rest.subrange(from.len() as int, rest.len() as int) =~= s@.subrange(
                    i + from.len(),
                    s.len() as int,
                ));
                assert(out@ + replace_text(s@.subrange(i + from.len(), s.len() as int), from@, to@)
                    =~= before + replace_text(rest, from@, to@));
            }
            i = i + from.len();
        } else {
            out.push(s[i]);
            proof {
                assert(!occurs_at(rest, from@, 0)) by {
                    if occurs_at(rest, from@, 0) {
                        assert(rest.subrange(0, from.len() as int) =~= s@.subrange(
                            i as int,
                            i + from.len(),
                        ));
                        assert(occurs_at(s@, from@, i as int));
                    }
                }
                assert(rest.subrange(1, rest.len() as int) =~= s@.subrange(i + 1, s.len() as int));
                assert(out@ =~= before + seq![rest[0]]);
                assert(out@ + replace_text(s@.subrange(i + 1, s.len() as int), from@, to@)
                    =~= before + replace_text(rest, from@, to@));
            }
            i = i + 1;
        }
    }
    proof {
        assert(s@.subrange(s.len() as int, s.len() as int) =~= Seq::<char>::empty());
    }
    if from.len() == 0 {
        push_all(&mut out, to);
    }
    proof {
        assert(out@ =~= replace_text(s@, from@, to@));
    }
    out
}

} // verus!

verus! {

/// Whether `c` is one of the characters of `s`.
pub fn has_char(s: &Vec<char>, c: char) -> (r: bool)
    ensures
        r == s@.contains(c),
{
    let mut i: usize = 0;
    while i < s.len()
        invariant
            i <= s.len(),
            forall|j: int| 0 <= j < i ==> s@[j] != c,
        decreases s.len() - i,
    {
        if s[i] == c {
            return true;
        }
        i = i + 1;
    }
    false
}

} // verus!

verus! {

/// Whether `c` is white space: one of the characters that have the Unicode
/// property `White_Space`.
pub open spec fn is_white_space(c: char) -> bool {
    ||| '\u{9}' <= c <= '\u{d}'
    ||| c == ' '
    ||| c == '\u{85}'
    ||| c == '\u{a0}'
    ||| c == '\u{1680}'
    ||| '\u{2000}' <= c <= '\u{200a}'
    ||| c == '\u{2028}'
    ||| c == '\u{2029}'
    ||| c == '\u{202f}'
    ||| c == '\u{205f}'
    ||| c == '\u{3000}'
}

/// Whether `c` is white space.
pub fn white_space(c: char) -> (r: bool)
    ensures
        r == is_white_space(c),
{
    ('\u{9}' <= c && c <= '\u{d}') || c == ' ' || c == '\u{85}' || c == '\u{a0}' || c == '\u{1680}'
        || ('\u{2000}' <= c && c <= '\u{200a}') || c == '\u{2028}' || c == '\u{2029}' || c
        == '\u{202f}' || c == '\u{205f}' || c == '\u{3000}'
}

/// `s` without the white space at its start.
pub open spec fn trimmed_start(s: Seq<char>) -> Seq<char>
    decreases s.len(),
{
    if s.len() > 0 && is_white_space(s.first()) {
        trimmed_start(s.drop_first())
    } else {
        s
    }
}

/// `s` without the white space at its end.
pub open spec fn trimmed_end(s: Seq<char>) -> Seq<char>
    decreases s.len(),
{
    if s.len() > 0 && is_white_space(s.last()) {
        trimmed_end(s.drop_last())
    } else {
        s
    }
}

/// `s` without the white space at its start and at its end.
pub open spec fn trimmed(s: Seq<char>) -> Seq<char> {
    trimmed_end(trimmed_start(s))
}

/// The text without its leading and trailing white space.
pub fn trim(s: &str) -> (r: String)
    ensures
        r@ == trimmed(s@),
{
    let chars = chars_of(s);
    let mut start: usize = 0;
    assert(s@.subrange(0, s@.len() as int) =~= s@);
    while start < chars.len() && white_space(chars[start])
        invariant
            start <= chars.len(),
            chars@ == s@,
            trimmed_start(s@) == trimmed_start(s@.subrange(start as int, s@.len() as int)),
        decreases chars.len() - start,
    {
        proof {
            let rest = s@.subrange(start as int, s@.len() as int);
            assert(rest.first() == s@[start as int]);
            assert(rest.drop_first() =~= s@.subrange(start + 1, s@.len() as int));
        }
        start = start + 1;
    }
    let ghost body = s@.subrange(start as int, s@.len() as int);
    proof {
        if start < chars.len() {
            assert(body.first() == s@[start as int]);
        }
        assert(trimmed_start(s@) == body);
    }
    let mut end: usize = chars.len();
    while end > start && white_space(chars[end - 1])
        invariant
            start <= end <= chars.len(),
            chars@ == s@,
            body == s@.subrange(start as int, s@.len() as int),
            trimmed_end(body) == trimmed_end(s@.subrange(start as int, end as int)),
        decreases end,
    {
        proof {
            let rest = s@.subrange(start as int, end as int);
            assert(rest.last() == s@[end - 1]);
            assert(rest.drop_last() =~= s@.subrange(start as int, end - 1));
        }
        end = end - 1;
    }
    proof {
        let rest = s@.subrange(start as int, end as int);
        if end > start {
            assert(rest.last() == s@[end - 1]);
        }
        assert(trimmed_end(body) == rest);
    }
    text_of_range(&chars, start, end)
}

/// Whether two texts hold the same characters.
pub fn same_text(a: &str, b: &str) -> (r: bool)
    ensures
        r == (a@ == b@),
{
    let x = chars_of(a);
    let y = chars_of(b);
    if x.len() != y.len() {
        return false;
    }
    let mut i: usize = 0;
    while i < x.len()
        invariant
            i <= x.len(),
            x.len() == y.len(),
            x@ == a@,
            y@ == b@,
            forall|j: int| 0 <= j < i ==> x@[j] == y@[j],
        decreases x.len() - i,
    {
        if x[i] != y[i] {
            assert(a@[i as int] != b@[i as int]);
            return false;
        }
        i = i + 1;
    }
    assert(x@ =~= y@);
    true
}

} // verus!

verus! {

/// There is one first occurrence at most.
pub proof fn lemma_first_occurrence_unique(
    hay: Seq<char>,
    needle: Seq<char>,
    from: int,
    a: int,
    b: int,
)
    requires
        first_occurrence(hay, needle, from, a),
        first_occurrence(hay, needle, from, b),
    ensures
        a == b,
{
    if a < b {
        assert(!occurs_at(hay, needle, a));
    } else if b < a {
        assert(!occurs_at(hay, needle, b));
    }
}

/// What stands before and after the first occurrence of `sep` in `text`, if
/// `sep` occurs in it.
pub open spec fn split_once(text: Seq<char>, sep: Seq<char>) -> Option<(Seq<char>, Seq<char>)> {
    if exists|at: int| first_occurrence(text, sep, 0, at) {
        let at = choose|at: int| first_occurrence(text, sep, 0, at);
        Some((text.subrange(0, at), text.subrange(at + sep.len(), text.len() as int)))
    } else {
        None
    }
}

/// Splits `text` at the first occurrence of `sep`.
pub fn split_at_first(text: &str, sep: &str) -> (r: Option<(String, String)>)
    ensures
        match r {
            Some((before, after)) => split_once(text@, sep@) == Some((before@, after@)),
            None => split_once(text@, sep@) is None,
        },
{
    let chars = chars_of(text);
    let needle = chars_of(sep);
    match find_text(&chars, &needle, 0) {
        Some(at) => {
            proof {
                assert(first_occurrence(text@, sep@, 0, at as int));
                assert(at + needle@.len() <= chars@.len());
                let chosen = choose|c: int| first_occurrence(text@, sep@, 0, c);
                lemma_first_occurrence_unique(text@, sep@, 0, at as int, chosen);
            }
            let before = text_of_range(&chars, 0, at);
            let after = text_of_range(&chars, at + needle.len(), chars.len());
            Some((before, after))
        },
        None => None,
    }
}

} // verus!

verus! {

/// The texts of a sequence of strings.
pub open spec fn texts(strings: Seq<String>) -> Seq<Seq<char>> {
    Seq::new(strings.len(), |i: int| strings[i]@)
}

/// The parts in their order with `sep` between each two of them.
pub open spec fn join_text(parts: Seq<Seq<char>>, sep: Seq<char>) -> Seq<char>
    decreases parts.len(),
{
    if parts.len() == 0 {
        Seq::empty()
    } else if parts.len() == 1 {
        parts[0]
    } else {
        join_text(parts.drop_last(), sep) + sep + parts.last()
    }
}

/// The strings in their order with `sep` between each two of them.
pub fn join(parts: &Vec<String>, sep: &str) -> (r: String)
    ensures
        r@ == join_text(texts(parts@), sep@),
{
    let mut out = String::new();
    let mut i: usize = 0;
    let ghost all = texts(parts@);
    assert(all.subrange(0, 0) =~= Seq::<Seq<char>>::empty());
    while i < parts.len()
        invariant
            i <= parts.len(),
            all == texts(parts@),
            out@ == join_text(all.subrange(0, i as int), sep@),
        decreases parts.len() - i,
    {
        proof {
            let next = all.subrange(0, i + 1);
            assert(next.drop_last() =~= all.subrange(0, i as int));
            assert(next.last() == parts@[i as int]@);
        }
        let ghost before = out@;
        if i > 0 {
            out.append(sep);
        }
        out.append(parts[i].as_str());
        proof {
            if i == 0 {
                assert(out@ =~= parts@[0]@);
                assert(all.subrange(0, 1)[0] == parts@[0]@);
            } else {
                assert(out@ =~= before + sep@ + parts@[i as int]@);
            }
        }
        i = i + 1;
    }
    assert(all.subrange(0, all.len() as int) =~= all);
    out
}

} // verus!

verus! {

/// The character of a decimal digit.
pub open spec fn digit_char(d: int) -> char {
    if d == 0 {
        '0'
    } else if d == 1 {
        '1'
    } else if d == 2 {
        '2'
    } else if d == 3 {
        '3'
    } else if d == 4 {
        '4'
    } else if d == 5 {
        '5'
    } else if d == 6 {
        '6'
    } else if d == 7 {
        '7'
    } else if d == 8 {
        '8'
    } else {
        '9'
    }
}

/// The decimal digits of a number, without leading zeros.
pub open spec fn decimal_text(n: nat) -> Seq<char>
    decreases n,
{
    if n < 10 {
        seq![digit_char(n as int)]
    } else {
        decimal_text(n / 10).push(digit_char((n % 10) as int))
    }
}

/// The character of a decimal digit.
fn digit(d: u64) -> (r: char)
    requires
        d < 10,
    ensures
        r == digit_char(d as int),
{
    if d == 0 {
        '0'
    } else if d == 1 {
        '1'
    } else if d == 2 {
        '2'
    } else if d == 3 {
        '3'
    } else if d == 4 {
        '4'
    } else if d == 5 {
        '5'
    } else if d == 6 {
        '6'
    } else if d == 7 {
        '7'
    } else if d == 8 {
        '8'
    } else {
        '9'
    }
}

/// The decimal digits of a number, without leading zeros.
pub fn decimal(n: u64) -> (r: String)
    ensures
        r@ == decimal_text(n as nat),
    decreases n,
{
    if n < 10 {
        let mut out = String::new();
        out.push(digit(n));
        assert(out@ =~= seq![digit_char(n as int)]);
        out
    } else {
        let mut out = decimal(n / 10);
        out.push(digit(n % 10));
        out
    }
}

} // verus!

verus! {

/// `s` without a carriage return at its end.
pub open spec fn without_return(s: Seq<char>) -> Seq<char> {
    if s.len() > 0 && s.last() == '\r' {
        s.drop_last()
    } else {
        s
    }
}

/// The position of the first line feed at or after `from`; the length of `s`
/// if there is none.
pub open spec fn line_end(s: Seq<char>, from: int) -> int
    decreases s.len() - from,
{
    if from < 0 || from >= s.len() {
        s.len() as int
    } else if s[from] == '\n' {
        from
    } else {
        line_end(s, from + 1)
    }
}

/// The end of a line is not before its start and not after the text.
pub proof fn lemma_line_end_bounds(s: Seq<char>, from: int)
    requires
        0 <= from <= s.len(),
    ensures
        from <= line_end(s, from) <= s.len(),
    decreases s.len() - from,
{
    if from < s.len() && s[from] != '\n' {
        lemma_line_end_bounds(s, from + 1);
    }
}

/// The lines of `s` from `from` on. A line ends with a line feed, or with a
/// carriage return and a line feed, neither of which belongs to it; the last
/// line may end with the text. An empty text has no lines.
pub open spec fn lines_from(s: Seq<char>, from: int) -> Seq<Seq<char>>
    decreases s.len() - from,
{
    if from < 0 || from >= s.len() {
        Seq::empty()
    } else {
        let end = line_end(s, from);
        if end >= s.len() {
            seq![s.subrange(from, s.len() as int)]
        } else {
            proof {
                lemma_line_end_bounds(s, from);
            }
            seq![without_return(s.subrange(from, end))] + lines_from(s, end + 1)
        }
    }
}

/// The lines of a text.
pub open spec fn lines_of(s: Seq<char>) -> Seq<Seq<char>> {
    lines_from(s, 0)
}

/// The lines of a text.
pub fn lines(s: &str) -> (r: Vec<String>)
    ensures
        texts(r@) == lines_of(s@),
{
    let chars = chars_of(s);
    let mut out: Vec<String> = Vec::new();
    let mut from: usize = 0;
    assert(texts(out@) + lines_from(s@, 0) =~= lines_from(s@, 0));
    while from < chars.len()
        invariant
            chars@ == s@,
            from <= chars.len(),
            texts(out@) + lines_from(s@, from as int) == lines_of(s@),
        decreases chars.len() - from,
    {
        let ghost before = texts(out@);
        let mut end: usize = from;
        while end < chars.len() && chars[end] != '\n'
            invariant
                from <= end <= chars.len(),
                line_end(chars@, from as int) == line_end(chars@, end as int),
            decreases chars.len() - end,
        {
            end = end + 1;
        }
        if end >= chars.len() {
            out.push(text_of_range(&chars, from, chars.len()));
            proof {
                assert(texts(out@) =~= before + seq![s@.subrange(from as int, s@.len() as int)]);
                assert(lines_from(s@, chars.len() as int) =~= Seq::<Seq<char>>::empty());
                assert(texts(out@) + lines_from(s@, chars.len() as int) =~= before + lines_from(
                    s@,
                    from as int,
                ));
            }
            from = chars.len();
        } else {
            let stop = if end > from && chars[end - 1] == '\r' {
                end - 1
            } else {
                end
            };
            out.push(text_of_range(&chars, from, stop));
            proof {
                let line = s@.subrange(from as int, end as int);
                if end > from && chars@[end - 1] == '\r' {
                    assert(line.last() == '\r');
                    assert(line.drop_last() =~= s@.subrange(from as int, stop as int));
                } else {
                    if line.len() > 0 {
                        assert(line.last() == chars@[end - 1]);
                    }
                }
                assert(texts(out@) =~= before + seq![without_return(line)]);
                assert(texts(out@) + lines_from(s@, end + 1) =~= before + (seq![
                    without_return(line),
                ] + lines_from(s@, end + 1)));
            }
            from = end + 1;
        }
    }
    proof {
        assert(lines_from(s@, from as int) =~= Seq::<Seq<char>>::empty());
        assert(texts(out@) + Seq::<Seq<char>>::empty() =~= texts(out@));
    }
    out
}

} // verus!

verus! {

/// Whether `s` starts with `prefix`.
pub open spec fn starts_with(s: Seq<char>, prefix: Seq<char>) -> bool {
    occurs_at(s, prefix, 0)
}

/// Whether `s` starts with `prefix`.
pub fn has_prefix(s: &str, prefix: &str) -> (r: bool)
    ensures
        r == starts_with(s@, prefix@),
{
    occurs_at_index(&chars_of(s), &chars_of(prefix), 0)
}

/// `s` with every occurrence of `from` replaced by `to`.
pub fn str_replace(s: &str, from: &str, to: &str) -> (r: String)
    ensures
        r@ == replace_text(s@, from@, to@),
{
    text_of(&replace(&chars_of(s), &chars_of(from), &chars_of(to)))
}

} // verus!
