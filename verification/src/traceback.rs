//! Tracebacks rebuilt from the frames of a CPython exception.

use crate::proto::{CodeLoc, StackFrame, Traceback};
use crate::text::same;
use vstd::prelude::*;

verus! {

/// One frame as it was extracted; lines and columns are 1-based and columns
/// count characters.
pub struct FrameRow {
    pub filename: String,
    pub start_line: u32,
    pub start_col: u32,
    pub end_line: u32,
    pub end_col: u32,
    pub frame_name: Option<String>,
    pub preview_line: Option<String>,
    pub hide_caret: bool,
    pub hide_frame_name: bool,
}

/// The preview text of a row.
pub open spec fn row_preview(row: FrameRow) -> Option<Seq<char>> {
    match row.preview_line {
        Some(line) => Some(line@),
        None => None,
    }
}

/// Whether a frame carries what a row says, its preview aside.
pub open spec fn frame_matches(frame: StackFrame, row: FrameRow) -> bool {
    &&& frame.filename == row.filename
    &&& frame.start == (CodeLoc { line: row.start_line, column: row.start_col })
    &&& frame.end == (CodeLoc { line: row.end_line, column: row.end_col })
    &&& frame.frame_name == row.frame_name
    &&& frame.hide_caret == row.hide_caret
    &&& frame.hide_frame_name == row.hide_frame_name
}

/// The previews are pairwise different.
pub open spec fn previews_distinct(previews: Seq<String>) -> bool {
    forall|i: int, j: int| 0 <= i < j < previews.len() ==> (#[trigger] previews[i])@ != (#[trigger] previews[j])@
}

/// Index of `line` among `previews`.
fn find_preview(previews: &Vec<String>, line: &str) -> (r: Option<usize>)
    ensures
        r is Some ==> r->Some_0 < previews@.len() && previews@[r->Some_0 as int]@ == line@,
        r is None ==> forall|i: int| 0 <= i < previews@.len() ==> (#[trigger] previews@[i])@ != line@,
{
    let mut i: usize = 0;
    while i < previews.len()
        invariant
            i <= previews@.len(),
            forall|j: int| 0 <= j < i ==> (#[trigger] previews@[j])@ != line@,
        decreases previews@.len() - i,
    {
        if same(previews[i].as_str(), line) {
            return Some(i);
        }
        i = i + 1;
    }
    None
}

/// Turns extracted rows into frames. Rows with the same preview line share one
/// preview, so that deep recursion on a long line keeps the line once.
pub fn extract(rows: Vec<FrameRow>) -> (r: Traceback)
    ensures
        r.wf(),
        r.frames@.len() == rows@.len(),
        forall|i: int| 0 <= i < rows@.len() ==> frame_matches(#[trigger] r.frames@[i], rows@[i]),
        forall|i: int| 0 <= i < rows@.len() ==> #[trigger] r.preview(i) == row_preview(rows@[i]),
        previews_distinct(r.previews@),
{
    let ghost all = rows@;
    let mut out: Traceback = Traceback::empty();
    for row in it: rows
        invariant
            it.seq() == all,
            out.wf(),
            out.frames@.len() == it.index(),
            forall|i: int| 0 <= i < it.index() ==> frame_matches(#[trigger] out.frames@[i], all[i]),
            forall|i: int| 0 <= i < it.index() ==> #[trigger] out.preview(i) == row_preview(all[i]),
            previews_distinct(out.previews@),
    {
        let ghost before = out;
        let mut previews: Vec<String> = out.previews;
        let mut frames: Vec<StackFrame> = out.frames;
        let preview_line: Option<usize> = match row.preview_line {
            None => None,
            Some(line) => {
                match find_preview(&previews, line.as_str()) {
                    Some(index) => Some(index),
                    None => {
                        let index: usize = previews.len();
                        previews.push(line);
                        Some(index)
                    },
                }
            },
        };
        frames.push(
            StackFrame {
                filename: row.filename,
                start: CodeLoc { line: row.start_line, column: row.start_col },
                end: CodeLoc { line: row.end_line, column: row.end_col },
                frame_name: row.frame_name,
                preview_line,
                hide_caret: row.hide_caret,
                hide_frame_name: row.hide_frame_name,
            },
        );
        out = Traceback { frames, previews };
        proof {
            assert forall|i: int| 0 <= i < it.index() implies frame_matches(#[trigger] out.frames@[i], all[i]) by {
                assert(out.frames@[i] == before.frames@[i]);
            }
            assert forall|i: int| 0 <= i < it.index() implies #[trigger] out.preview(i) == row_preview(all[i]) by {
                assert(out.frames@[i] == before.frames@[i]);
                assert(before.preview(i) == row_preview(all[i]));
                if before.frames@[i].preview_line is Some {
                    let k = before.frames@[i].preview_line->Some_0 as int;
                    assert(out.previews@[k] == before.previews@[k]);
                }
            }
            assert forall|i: int| 0 <= i < out.frames@.len() implies match (#[trigger] out.frames@[i]).preview_line {
                Some(k) => k < out.previews@.len(),
                None => true,
            } by {
                if i < before.frames@.len() {
                    assert(out.frames@[i] == before.frames@[i]);
                }
            }
        }
    }
    out
}

/// The traceback of an exception: its rows where they could be extracted,
/// none otherwise.
pub fn py_traceback_frames(rows: Option<Vec<FrameRow>>) -> (r: Traceback)
    ensures
        r.wf(),
        rows is None ==> r.frames@.len() == 0,
        rows is Some ==> {
            &&& r.frames@.len() == rows->Some_0@.len()
            &&& forall|i: int| 0 <= i < r.frames@.len() ==> frame_matches(#[trigger] r.frames@[i], rows->Some_0@[i])
            &&& forall|i: int| 0 <= i < r.frames@.len() ==> #[trigger] r.preview(i) == row_preview(rows->Some_0@[i])
        },
        previews_distinct(r.previews@),
{
    match rows {
        None => Traceback::empty(),
        Some(rows) => extract(rows),
    }
}

/// A frame carries the file, the places, the name and the flags of its row.
pub proof fn law_frames_carry_their_rows(frame: StackFrame, row: FrameRow)
    requires
        frame_matches(frame, row),
    ensures
        frame.filename == row.filename,
        frame.start.line == row.start_line,
        frame.start.column == row.start_col,
        frame.end.line == row.end_line,
        frame.end.column == row.end_col,
        frame.frame_name == row.frame_name,
        frame.hide_caret == row.hide_caret,
        frame.hide_frame_name == row.hide_frame_name,
{
}

/// The preview of a frame is the line of its row, and there is none where the
/// row has none.
pub proof fn law_previews_are_the_lines_of_the_rows(traceback: Traceback, row: FrameRow, i: int)
    requires
        traceback.preview(i) == row_preview(row),
    ensures
        traceback.frames@[i].preview_line is Some <==> row.preview_line is Some,
        row.preview_line is Some ==> traceback.previews@[traceback.frames@[i].preview_line->Some_0 as int]@
            == row.preview_line->Some_0@,
{
}

} // verus!
