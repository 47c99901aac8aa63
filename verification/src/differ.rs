//! Comparing two snapshots line by line: the lines of the comparison, and what
//! it has to know of the line breaks of the two texts.

use crate::text::{chars_of, ends_with, has_suffix, replace, replace_text, text_of};
use similar::{Algorithm, ChangeTag, TextDiff};
use std::time::Duration;
use vstd::prelude::*;

verus! {

/// The line break at the end of a text, or nothing.
pub open spec fn trailing_break(s: Seq<char>) -> Seq<char> {
    if ends_with(s, "\r\n"@) {
        "\r\n"@
    } else if ends_with(s, "\r"@) {
        "\r"@
    } else if ends_with(s, "\n"@) {
        "\n"@
    } else {
        ""@
    }
}

/// The line break at the end of a text, or nothing.
pub fn trailing_newline(s: &str) -> (r: &'static str)
    ensures
        r@ == trailing_break(s@),
{
    let chars = chars_of(s);
    if has_suffix(&chars, &chars_of("\r\n")) {
        "\r\n"
    } else if has_suffix(&chars, &chars_of("\r")) {
        "\r"
    } else if has_suffix(&chars, &chars_of("\n")) {
        "\n"
    } else {
        ""
    }
}

/// A carriage return that no line feed follows stands at position `i`.
pub open spec fn bare_return_at(s: Seq<char>, i: int) -> bool {
    0 <= i < s.len() && s[i] == '\r' && (i + 1 == s.len() || s[i + 1] != '\n')
}

/// A carriage return with a line feed after it stands at position `i`.
pub open spec fn return_feed_at(s: Seq<char>, i: int) -> bool {
    0 <= i && i + 1 < s.len() && s[i] == '\r' && s[i + 1] == '\n'
}

/// A line feed that follows no carriage return stands at position `i`.
pub open spec fn bare_feed_at(s: Seq<char>, i: int) -> bool {
    0 <= i < s.len() && s[i] == '\n' && (i == 0 || s[i - 1] != '\r')
}

/// Which kinds of line breaks a text holds: a carriage return alone, a
/// carriage return with a line feed, a line feed alone.
pub fn detect_newlines(s: &str) -> (r: (bool, bool, bool))
    ensures
        r.0 == exists|i: int| bare_return_at(s@, i),
        r.1 == exists|i: int| return_feed_at(s@, i),
        r.2 == exists|i: int| bare_feed_at(s@, i),
{
    let chars = chars_of(s);
    let mut detected_crlf = false;
    let mut detected_cr = false;
    let mut detected_lf = false;
    let mut i: usize = 0;
    while i < chars.len()
        invariant
            i <= chars.len(),
            chars@ == s@,
            detected_cr == exists|j: int| j + 1 < i && #[trigger] bare_return_at(s@, j),
            detected_crlf == exists|j: int| j + 1 < i && #[trigger] return_feed_at(s@, j),
            detected_lf == exists|j: int| j < i && #[trigger] bare_feed_at(s@, j),
        decreases chars.len() - i,
    {
        let c = chars[i];
        let after_return = i > 0 && chars[i - 1] == '\r';
        if c == '\n' {
            if after_return {
                detected_crlf = true;
                assert(return_feed_at(s@, i - 1));
            } else {
                detected_lf = true;
                assert(bare_feed_at(s@, i as int));
            }
        } else if after_return {
            detected_cr = true;
            assert(bare_return_at(s@, i - 1));
        }
        proof {
            if !detected_cr {
                assert forall|j: int| j + 1 < i + 1 implies !bare_return_at(s@, j) by {
                    if j + 1 < i {
                    }
                }
            }
            if !detected_crlf {
                assert forall|j: int| j + 1 < i + 1 implies !return_feed_at(s@, j) by {
                    if j + 1 < i {
                    }
                }
            }
            if !detected_lf {
                assert forall|j: int| j < i + 1 implies !bare_feed_at(s@, j) by {
                    if j < i {
                    }
                }
            }
        }
        i = i + 1;
    }
    if chars.len() > 0 && chars[chars.len() - 1] == '\r' {
        detected_cr = true;
        assert(bare_return_at(s@, s@.len() - 1));
    } else {
        proof {
            if !detected_cr {
                assert forall|j: int| !bare_return_at(s@, j) by {
                    if bare_return_at(s@, j) {
                        if j + 1 < s@.len() {
                            assert(j + 1 < i);
                        }
                    }
                }
            }
        }
    }
    (detected_cr, detected_crlf, detected_lf)
}

/// Whether the line breaks of two texts have to be shown when the texts are
/// compared: they end differently, or they hold more than one kind of line
/// break between them.
pub open spec fn breaks_matter(left: Seq<char>, right: Seq<char>) -> bool {
    let cr = (exists|i: int| bare_return_at(left, i)) || (exists|i: int| bare_return_at(right, i));
    let crlf = (exists|i: int| return_feed_at(left, i)) || (exists|i: int|
        return_feed_at(right, i));
    let lf = (exists|i: int| bare_feed_at(left, i)) || (exists|i: int| bare_feed_at(right, i));
    trailing_break(left) != trailing_break(right) || (cr && crlf) || (cr && lf) || (crlf && lf)
}

/// Whether the line breaks of two texts have to be shown when the texts are
/// compared.
pub fn newlines_matter(left: &str, right: &str) -> (r: bool)
    ensures
        r == breaks_matter(left@, right@),
{
    if !crate::text::same_text(trailing_newline(left), trailing_newline(right)) {
        return true;
    }
    let (cr1, crlf1, lf1) = detect_newlines(left);
    let (cr2, crlf2, lf2) = detect_newlines(right);
    let cr = cr1 || cr2;
    let crlf = crlf1 || crlf2;
    let lf = lf1 || lf2;
    (cr && crlf) || (cr && lf) || (crlf && lf)
}

/// Whether `c` is a control character that a terminal would not show: escape,
/// bell, backspace or delete.
pub open spec fn is_hidden_control(c: char) -> bool {
    c == '\x1b' || c == '\x07' || c == '\x08' || c == '\x7f'
}

/// A text with its line breaks made visible: a sign before every carriage
/// return and every line feed, and the two signs of a carriage return with a
/// line feed before the two of them.
pub open spec fn visible_breaks(s: Seq<char>) -> Seq<char> {
    replace_text(
        replace_text(replace_text(s, "\r"@, "\u{240d}\r"@), "\n"@, "\u{240a}\n"@),
        "\u{240d}\r\u{240a}\n"@,
        "\u{240d}\u{240a}\r\n"@,
    )
}

/// A text as it is shown in a comparison: with its line breaks made visible
/// if they matter or if it holds a control character that a terminal would
/// not show, and as it is otherwise.
pub fn render_invisible(s: &str, newlines_matter: bool) -> (r: String)
    ensures
        r@ == if newlines_matter || exists|i: int| 0 <= i < s@.len() && is_hidden_control(s@[i]) {
            visible_breaks(s@)
        } else {
            s@
        },
{
    let chars = chars_of(s);
    let mut hidden = false;
    let mut i: usize = 0;
    while i < chars.len()
        invariant
            i <= chars.len(),
            chars@ == s@,
            hidden == exists|j: int| 0 <= j < i && is_hidden_control(s@[j]),
        decreases chars.len() - i,
    {
        let c = chars[i];
        if c == '\x1b' || c == '\x07' || c == '\x08' || c == '\x7f' {
            hidden = true;
            assert(is_hidden_control(s@[i as int]));
        }
        proof {
            if !hidden {
                assert forall|j: int| 0 <= j < i + 1 implies !is_hidden_control(s@[j]) by {
                    if j < i {
                    }
                }
            }
        }
        i = i + 1;
    }
    if newlines_matter || hidden {
        let first = replace(&chars, &chars_of("\r"), &chars_of("\u{240d}\r"));
        let second = replace(&first, &chars_of("\n"), &chars_of("\u{240a}\n"));
        let third = replace(
            &second,
            &chars_of("\u{240d}\r\u{240a}\n"),
            &chars_of("\u{240d}\u{240a}\r\n"),
        );
        text_of(&third)
    } else {
        text_of(&chars)
    }
}

} // verus!

verus! {

/// What a line of a comparison says of its text: it was added, it was taken
/// away, or it is the same on both sides.
#[derive(Debug, Clone, Copy, PartialEq, Eq, Structural)]
pub enum ChangeKind {
    Insert,
    Delete,
    Equal,
}

/// How a piece of a line is shown.
#[derive(Debug, Clone, Copy, PartialEq, Eq, Structural)]
pub enum Emphasis {
    /// In the colour of the line.
    Plain,
    /// Underlined: this is what has changed within the line.
    Strong,
    /// Dimmed.
    Dim,
}

/// A piece of a line of a comparison.
#[derive(Debug)]
pub struct DiffPiece {
    pub text: String,
    pub emphasis: Emphasis,
}

/// A line of a comparison: the numbers of the line on both sides, each in a
/// column of five characters, the sign of the change, and the pieces of the
/// text.
#[derive(Debug)]
pub struct DiffLine {
    pub kind: ChangeKind,
    pub old_column: String,
    pub new_column: String,
    pub pieces: Vec<DiffPiece>,
    /// Whether the text lacks the line break at its end.
    pub missing_newline: bool,
}

/// The width of the column of a line number.
pub const COLUMN_WIDTH: usize = 5;

/// A text after as many spaces as it lacks to fill a column.
pub open spec fn right_aligned(text: Seq<char>) -> Seq<char> {
    if text.len() >= COLUMN_WIDTH {
        text
    } else {
        Seq::new((COLUMN_WIDTH - text.len()) as nat, |i: int| ' ') + text
    }
}

/// The column of a line number: the number at the right of the column, or an
/// empty column where the line does not stand on that side.
pub open spec fn column_text(index: Option<usize>) -> Seq<char> {
    match index {
        Some(n) => right_aligned(crate::text::decimal_text(n as nat)),
        None => right_aligned(Seq::empty()),
    }
}

/// How a piece is shown: in a line that was added, underlined if it is what
/// has changed, dimmed if something else in the line has changed, and plain
/// if nothing is marked as changed within the line; in a line that was taken
/// away, underlined if it is what has changed and dimmed otherwise; in any
/// other line dimmed.
pub open spec fn emphasis_of(kind: ChangeKind, emphasized: bool, any_emphasized: bool) -> Emphasis {
    match kind {
        ChangeKind::Insert => if !any_emphasized {
            Emphasis::Plain
        } else if emphasized {
            Emphasis::Strong
        } else {
            Emphasis::Dim
        },
        ChangeKind::Delete => if emphasized {
            Emphasis::Strong
        } else {
            Emphasis::Dim
        },
        ChangeKind::Equal => Emphasis::Dim,
    }
}

/// The text of a piece as it is shown.
pub open spec fn shown_text(s: Seq<char>, newlines_matter: bool) -> Seq<char> {
    if newlines_matter || exists|i: int| 0 <= i < s.len() && is_hidden_control(s[i]) {
        visible_breaks(s)
    } else {
        s
    }
}

/// A text at the right of a column.
fn align_right(text: &str) -> (r: String)
    ensures
        r@ == right_aligned(text@),
{
    let width = text.unicode_len();
    let mut out = String::new();
    if width < COLUMN_WIDTH {
        let mut i: usize = 0;
        while i < COLUMN_WIDTH - width
            invariant
                width < COLUMN_WIDTH,
                i <= COLUMN_WIDTH - width,
                out@ == Seq::new(i as nat, |j: int| ' '),
            decreases COLUMN_WIDTH - width - i,
        {
            out.push(' ');
            assert(out@ =~= Seq::new((i + 1) as nat, |j: int| ' '));
            i = i + 1;
        }
    }
    out.append(text);
    assert(out@ =~= right_aligned(text@));
    out
}

/// The column of a line number.
pub fn number_column(index: Option<usize>) -> (r: String)
    ensures
        r@ == column_text(index),
{
    match index {
        Some(n) => align_right(crate::text::decimal(n as u64).as_str()),
        None => {
            proof {
                reveal_strlit("");
            }
            align_right("")
        },
    }
}

/// The way in which two texts are compared.
#[derive(Debug, Clone, Copy, PartialEq, Eq, Structural)]
pub enum DiffAlgorithm {
    /// The comparison of Myers, which finds a shortest list of changes.
    Myers,
    /// The patience comparison, which lines the texts up by the lines that
    /// each of them holds once.
    Patience,
}

/// How long a comparison may take before it settles for an approximation, in
/// milliseconds.
pub const DIFF_TIMEOUT_MILLIS: u64 = 500;

/// One change of a comparison of two texts by lines: a line that was added,
/// taken away or kept, where it stands on both sides, its pieces, each with
/// whether it is what has changed within the line, and whether the line lacks
/// the line break at its end.
#[derive(Debug)]
pub struct LineChange {
    pub kind: ChangeKind,
    pub old_index: Option<usize>,
    pub new_index: Option<usize>,
    pub values: Vec<(bool, String)>,
    pub missing_newline: bool,
}

/// `similar::TextDiff`: the two texts are compared by lines with
/// `diff_lines`, configured with the algorithm and with a timeout, and the
/// changes that `iter_inline_changes` gives for each of the `ops` of the
/// comparison are handed out in their order, each with its `tag`, its
/// `old_index` and `new_index`, its `values` and its `missing_newline`. The
/// comparison, and the search for what has changed within a line, settle for
/// an approximation when their time is up, so nothing is claimed of the
/// changes.
#[verifier::external_body]
fn line_changes(old: &str, new: &str, algorithm: DiffAlgorithm, timeout_millis: u64) -> Vec<
    LineChange,
> {
    let algorithm = match algorithm {
        DiffAlgorithm::Myers => Algorithm::Myers,
        DiffAlgorithm::Patience => Algorithm::Patience,
    };
    let limit = Duration::from_millis(timeout_millis);
    let diff = TextDiff::configure().algorithm(algorithm).timeout(limit).diff_lines(old, new);
    diff.ops().iter().flat_map(|op| diff.iter_inline_changes(op)).map(|change| LineChange {
        kind: match change.tag() {
            ChangeTag::Insert => ChangeKind::Insert,
            ChangeTag::Delete => ChangeKind::Delete,
            ChangeTag::Equal => ChangeKind::Equal,
        },
        old_index: change.old_index(), new_index: change.new_index(),
        values: change.values().iter().map(|v| (v.0, v.1.to_string())).collect(), missing_newline: change.missing_newline(),
    }).collect()
}

/// `line` shows a change with the values `values`: its columns hold the
/// numbers of the line on the sides on which it stands, and its pieces are the
/// values with their line breaks made visible where they matter, each with
/// the emphasis that it gets.
pub open spec fn shows_change(
    line: DiffLine,
    kind: ChangeKind,
    old_index: Option<usize>,
    new_index: Option<usize>,
    values: Seq<(bool, String)>,
    missing_newline: bool,
    newlines_matter: bool,
) -> bool {
    &&& line.kind == kind
    &&& line.missing_newline == missing_newline
    &&& line.old_column@ == column_text(
        if kind == ChangeKind::Insert {
            None
        } else {
            old_index
        },
    )
    &&& line.new_column@ == column_text(
        if kind == ChangeKind::Delete {
            None
        } else {
            new_index
        },
    )
    &&& line.pieces@.len() == values.len()
    &&& forall|i: int|
        0 <= i < values.len() ==> {
            &&& (#[trigger] line.pieces@[i]).text@ == shown_text(values[i].1@, newlines_matter)
            &&& line.pieces@[i].emphasis == emphasis_of(
                kind,
                values[i].0,
                exists|j: int| 0 <= j < values.len() && values[j].0,
            )
        }
}

/// One line of a comparison, ready to be coloured: its columns, and its pieces
/// with their line breaks made visible where they matter and with the
/// emphasis that each of them gets.
pub fn diff_line(
    kind: ChangeKind,
    old_index: Option<usize>,
    new_index: Option<usize>,
    values: &Vec<(bool, String)>,
    missing_newline: bool,
    newlines_matter: bool,
) -> (r: DiffLine)
    ensures
        shows_change(r, kind, old_index, new_index, values@, missing_newline, newlines_matter),
{
    let mut any = false;
    let mut k: usize = 0;
    while k < values.len()
        invariant
            k <= values.len(),
            any == exists|j: int| 0 <= j < k && values@[j].0,
        decreases values.len() - k,
    {
        if values[k].0 {
            any = true;
        }
        proof {
            if !any {
                assert forall|j: int| 0 <= j < k + 1 implies !values@[j].0 by {
                    if j < k {
                    }
                }
            }
        }
        k = k + 1;
    }
    let mut pieces: Vec<DiffPiece> = Vec::new();
    let mut i: usize = 0;
    while i < values.len()
        invariant
            i <= values.len(),
            pieces@.len() == i,
            any == exists|j: int| 0 <= j < values@.len() && values@[j].0,
            forall|n: int|
                0 <= n < i ==> {
                    &&& (#[trigger] pieces@[n]).text@ == shown_text(values@[n].1@, newlines_matter)
                    &&& pieces@[n].emphasis == emphasis_of(kind, values@[n].0, any)
                },
        decreases values.len() - i,
    {
        let emphasized = values[i].0;
        let emphasis = match kind {
            ChangeKind::Insert => if !any {
                Emphasis::Plain
            } else if emphasized {
                Emphasis::Strong
            } else {
                Emphasis::Dim
            },
            ChangeKind::Delete => if emphasized {
                Emphasis::Strong
            } else {
                Emphasis::Dim
            },
            ChangeKind::Equal => Emphasis::Dim,
        };
        let text = render_invisible(values[i].1.as_str(), newlines_matter);
        pieces.push(DiffPiece { text, emphasis });
        i = i + 1;
    }
    let old_column = match kind {
        ChangeKind::Insert => number_column(None),
        _ => number_column(old_index),
    };
    let new_column = match kind {
        ChangeKind::Delete => number_column(None),
        _ => number_column(new_index),
    };
    DiffLine { kind, old_column, new_column, pieces, missing_newline }
}

/// The lines show the changes, one line for each change and in their order.
pub open spec fn shows_changes(
    lines: Seq<DiffLine>,
    changes: Seq<LineChange>,
    newlines_matter: bool,
) -> bool {
    &&& lines.len() == changes.len()
    &&& forall|i: int|
        0 <= i < changes.len() ==> shows_change(
            #[trigger] lines[i],
            changes[i].kind,
            changes[i].old_index,
            changes[i].new_index,
            changes[i].values@,
            changes[i].missing_newline,
            newlines_matter,
        )
}

/// The lines of a comparison, one for each change and in their order.
pub fn show_changes(changes: &Vec<LineChange>, newlines_matter: bool) -> (r: Vec<DiffLine>)
    ensures
        shows_changes(r@, changes@, newlines_matter),
{
    let mut lines: Vec<DiffLine> = Vec::new();
    let mut i: usize = 0;
    while i < changes.len()
        invariant
            i <= changes.len(),
            shows_changes(lines@, changes@.subrange(0, i as int), newlines_matter),
        decreases changes.len() - i,
    {
        let change = &changes[i];
        let line = diff_line(
            change.kind,
            change.old_index,
            change.new_index,
            &change.values,
            change.missing_newline,
            newlines_matter,
        );
        let ghost before = lines@;
        lines.push(line);
        proof {
            let upto = changes@.subrange(0, i + 1);
            assert forall|k: int| 0 <= k < upto.len() implies shows_change(
                #[trigger] lines@[k],
                upto[k].kind,
                upto[k].old_index,
                upto[k].new_index,
                upto[k].values@,
                upto[k].missing_newline,
                newlines_matter,
            ) by {
                if k < i {
                    assert(lines@[k] == before[k]);
                    assert(changes@.subrange(0, i as int)[k] == upto[k]);
                }
            }
        }
        i = i + 1;
    }
    assert(changes@.subrange(0, i as int) =~= changes@);
    lines
}

/// Compares an old snapshot with a new one, line by line: the patience
/// comparison, which is given half a second. The result holds a line for
/// each change, in the order of the texts, with the line breaks made visible
/// where they matter between the two snapshots.
pub fn diff_snapshots(old: &str, new: &str) -> (r: Vec<DiffLine>)
    ensures
        exists|changes: Seq<LineChange>|
            shows_changes(r@, changes, breaks_matter(old@, new@)),
{
    let matter = newlines_matter(old, new);
    let changes = line_changes(old, new, DiffAlgorithm::Patience, DIFF_TIMEOUT_MILLIS);
    show_changes(&changes, matter)
}

} // verus!
