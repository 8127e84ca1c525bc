use vstd::prelude::*;
use vstd::seq_lib::{to_multiset_build, to_multiset_insert};
use vstd::string::StringSliceAdditionalSpecFns;
use crate::ast::Span;
use crate::line_index::{position_of, LineIndex, Position, Range};

verus! {

/// `a` comes no later than `b`.
pub open spec fn pos_le(a: Position, b: Position) -> bool {
    a.line < b.line || (a.line == b.line && a.character <= b.character)
}

pub open spec fn spec_within(p: Position, r: Range) -> bool {
    pos_le(r.start, p) && !pos_le(r.end, p)
}

pub open spec fn spec_overlaps(a: Range, b: Range) -> bool {
    spec_within(a.start, b) || spec_within(a.end, b) || spec_within(b.start, a) || spec_within(b.end, a)
}

fn position_le(a: Position, b: Position) -> (r: bool)
    ensures
        r == pos_le(a, b),
{
    a.line < b.line || (a.line == b.line && a.character <= b.character)
}

/// Whether a position lies within a range.
fn within(position: Position, range: Range) -> (r: bool)
    ensures
        r == spec_within(position, range),
{
    position_le(range.start, position) && !position_le(range.end, position)
}

/// Whether any part of either range overlaps with the other.
pub fn overlaps(a: Range, b: Range) -> (r: bool)
    ensures
        r == spec_overlaps(a, b),
{
    within(a.start, b) || within(a.end, b) || within(b.start, a) || within(b.end, a)
}

/// Removing `span` empties its whole line: it starts where a line starts and
/// ends just before the next line starts.
pub open spec fn spec_delete_line(span: Span, line_starts: Seq<usize>) -> bool {
    line_starts.contains(span.start) && exists|j: int|
        0 <= j < line_starts.len() && line_starts[j] == span.end + 1
}

/// Checks whether deleting the span empties a whole line, so that the line
/// terminator should go too.
pub fn delete_line(span: &Span, line_numbers: &LineIndex) -> (r: bool)
    ensures
        r == spec_delete_line(*span, line_numbers.line_starts@),
{
    let starts = &line_numbers.line_starts;
    let mut found_start = false;
    let mut found_end = false;
    let mut i: usize = 0;
    while i < starts.len()
        invariant
            i <= starts@.len(),
            found_start == exists|j: int| 0 <= j < i && starts@[j] == span.start,
            found_end == exists|j: int| 0 <= j < i && starts@[j] == span.end + 1,
        decreases starts@.len() - i,
    {
        if starts[i] == span.start {
            found_start = true;
        }
        if span.end < usize::MAX && starts[i] == span.end + 1 {
            found_end = true;
        }
        i = i + 1;
    }
    found_start && found_end
}

/// A replacement of the text in a range.
#[derive(Debug)]
pub struct TextEdit {
    pub range: Range,
    pub new_text: String,
}

#[derive(Clone, Copy, Debug, PartialEq, Eq, Structural)]
pub enum CodeActionKind {
    QuickFix,
}

/// A bundle of edits offered to the editor as one action.
#[derive(Debug)]
pub struct CodeAction {
    pub title: String,
    pub kind: CodeActionKind,
    pub edits: Vec<TextEdit>,
    pub is_preferred: bool,
}

/// Range deleted for one unused import: one byte more where the import
/// fills its line, so that the line terminator goes as well.
pub open spec fn deletion_range(code: Seq<u8>, line_starts: Seq<usize>, span: Span) -> Range {
    let end = if spec_delete_line(span, line_starts) { span.end + 1 } else { span.end as int };
    Range { start: position_of(code, span.start as int), end: position_of(code, end) }
}

pub open spec fn deletion_ranges(code: Seq<u8>, line_starts: Seq<usize>, unused: Seq<Span>) -> Seq<Range> {
    unused.map_values(|s: Span| deletion_range(code, line_starts, s))
}

pub open spec fn sorted_by_start(rs: Seq<Range>) -> bool {
    forall|i: int, j: int| 0 <= i < j < rs.len() ==> pos_le(rs[i].start, rs[j].start)
}

/// Whether the action to remove unused imports is offered for `selection`.
pub open spec fn offers_removal(code: Seq<u8>, line_starts: Seq<usize>, unused: Seq<Span>, selection: Range) -> bool {
    exists|i: int| 0 <= i < unused.len() && spec_overlaps(selection, deletion_range(code, line_starts, #[trigger] unused[i]))
}

/// `a` removes every unused import of `code`: one deletion each, in textual
/// order, offered as the preferred quick fix.
pub open spec fn is_removal_action(a: CodeAction, code: Seq<u8>, unused: Seq<Span>) -> bool {
    &&& a.title@ == "Remove unused imports"@
    &&& a.kind == CodeActionKind::QuickFix
    &&& a.is_preferred
    &&& sorted_by_start(a.edits@.map_values(|e: TextEdit| e.range))
    &&& a.edits@.map_values(|e: TextEdit| e.range).to_multiset()
        == deletion_ranges(code, LineIndex::starts_of(code), unused).to_multiset()
    &&& forall|i: int| 0 <= i < a.edits@.len() ==> (#[trigger] a.edits@[i]).new_text@.len() == 0
}

/// The ranges, sorted by where they start; ranges that start together keep
/// their order.
fn sort_by_start(ranges: Vec<Range>) -> (r: Vec<Range>)
    ensures
        sorted_by_start(r@),
        r@.to_multiset() == ranges@.to_multiset(),
{
    let mut sorted: Vec<Range> = Vec::new();
    let mut i: usize = 0;
    assert(sorted@ =~= ranges@.subrange(0, 0));
    while i < ranges.len()
        invariant
            i <= ranges@.len(),
            sorted_by_start(sorted@),
            sorted@.to_multiset() == ranges@.subrange(0, i as int).to_multiset(),
        decreases ranges@.len() - i,
    {
        let x = ranges[i];
        let mut pos: usize = 0;
        while pos < sorted.len() && position_le(sorted[pos].start, x.start)
            invariant
                pos <= sorted@.len(),
                forall|k: int| 0 <= k < pos ==> pos_le(#[trigger] sorted@[k].start, x.start),
            decreases sorted@.len() - pos,
        {
            pos = pos + 1;
        }
        proof {
            to_multiset_insert(sorted@, pos as int, x);
            to_multiset_build(ranges@.subrange(0, i as int), x);
            assert(ranges@.subrange(0, i as int + 1) == ranges@.subrange(0, i as int).push(x));
        }
        let ghost before = sorted@;
        sorted.insert(pos, x);
        assert forall|a: int, b: int| 0 <= a < b < sorted@.len() implies pos_le(sorted@[a].start, sorted@[b].start) by {
            if b < pos {
            } else if b == pos {
            } else if a == pos {
                assert(!pos_le(before[pos as int].start, x.start));
                assert(pos_le(before[pos as int].start, before[b - 1].start) || b - 1 == pos);
            } else if a < pos {
                assert(pos_le(before[a].start, before[b - 1].start));
            } else {
                assert(pos_le(before[a - 1].start, before[b - 1].start));
            }
        }
        i = i + 1;
    }
    assert(ranges@.subrange(0, ranges@.len() as int) == ranges@);
    sorted
}

/// Offers to remove every unused import when one of them overlaps the
/// selection: one deletion per import, in textual order.
pub fn code_action_unused_imports(code: &str, unused: &Vec<Span>, selection: Range) -> (r: Option<CodeAction>)
    ensures
        r is Some <==> offers_removal(code.spec_bytes(), LineIndex::starts_of(code.spec_bytes()), unused@, selection),
        r matches Some(a) ==> is_removal_action(a, code.spec_bytes(), unused@),
{
    if unused.len() == 0 {
        return None;
    }
    let line_numbers = LineIndex::new(code);
    let ghost b = line_numbers.bytes@;
    let ghost ls = line_numbers.line_starts@;
    let mut hovered = false;
    let mut ranges: Vec<Range> = Vec::new();
    let mut i: usize = 0;
    while i < unused.len()
        invariant
            i <= unused@.len(),
            b == line_numbers.bytes@,
            ls == line_numbers.line_starts@,
            ranges@ == deletion_ranges(b, ls, unused@.subrange(0, i as int)),
            hovered == exists|k: int| 0 <= k < i && spec_overlaps(selection, deletion_range(b, ls, #[trigger] unused@[k])),
        decreases unused@.len() - i,
    {
        let span = unused[i];
        let adjusted_end = if delete_line(&span, &line_numbers) {
            span.end + 1
        } else {
            span.end
        };
        let range = line_numbers.range(span.start, adjusted_end);
        hovered = hovered || overlaps(selection, range);
        ranges.push(range);
        i = i + 1;
        assert(unused@.subrange(0, i as int) == unused@.subrange(0, i - 1).push(span));
    }
    assert(unused@.subrange(0, unused@.len() as int) == unused@);
    if !hovered {
        return None;
    }
    let sorted = sort_by_start(ranges);
    let mut edits: Vec<TextEdit> = Vec::new();
    let mut j: usize = 0;
    assert(edits@.map_values(|e: TextEdit| e.range) =~= sorted@.subrange(0, 0));
    while j < sorted.len()
        invariant
            j <= sorted@.len(),
            edits@.len() == j,
            edits@.map_values(|e: TextEdit| e.range) == sorted@.subrange(0, j as int),
            forall|k: int| 0 <= k < edits@.len() ==> (#[trigger] edits@[k]).new_text@.len() == 0,
        decreases sorted@.len() - j,
    {
        let ghost prev = edits@;
        edits.push(TextEdit { range: sorted[j], new_text: String::new() });
        assert forall|k: int| 0 <= k < j implies edits@[k].range == sorted@[k] by {
            assert(edits@[k] == prev[k]);
            assert(prev.map_values(|e: TextEdit| e.range)[k] == sorted@.subrange(0, j as int)[k]);
        }
        j = j + 1;
        assert(edits@.map_values(|e: TextEdit| e.range) =~= sorted@.subrange(0, j as int));
    }
    assert(sorted@.subrange(0, sorted@.len() as int) == sorted@);
    Some(CodeAction {
        title: String::from_str("Remove unused imports"),
        kind: CodeActionKind::QuickFix,
        edits,
        is_preferred: true,
    })
}

} // verus!
