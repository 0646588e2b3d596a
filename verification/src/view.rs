//! The viewport: a window over a `File` plus a cursor. Slicing clamps to the
//! underlying line's true length, navigation clamps the cursor at zero, and
//! the window scrolls minimally so the cursor stays visible.

use crate::file::File;
use vstd::prelude::*;
use vstd::string::StringExecFns;
use vstd::view::View as _;

verus! {

/// What `String::from_utf8_lossy` returns on `bytes`: a function of the bytes
/// alone.
pub uninterp spec fn lossy_of(bytes: Seq<u8>) -> Seq<char>;

/// Relies on `String::from_utf8_lossy`: decodes the bytes as UTF-8,
/// substituting invalid sequences, never failing; valid UTF-8 — in
/// particular plain ASCII — decodes to the same characters.
#[verifier::external_body]
fn lossy_string(bytes: &[u8]) -> (r: String)
    ensures
        r@ == lossy_of(bytes@),
        (forall|i: int| 0 <= i < bytes@.len() ==> bytes@[i] < 128) ==> r@ == Seq::new(
            bytes@.len(),
            |i: int| bytes@[i] as char,
        ),
{
    String::from_utf8_lossy(bytes).to_string()
}

/// The smaller of two integers.
pub open spec fn imin(a: int, b: int) -> int {
    if a <= b {
        a
    } else {
        b
    }
}

/// A coordinate shifted by a signed delta, clamped to stay non-negative and
/// to fit the machine word.
pub open spec fn spec_shift(c: int, d: int) -> int {
    if c + d < 0 {
        0
    } else if c + d > usize::MAX as int {
        usize::MAX as int
    } else {
        c + d
    }
}

/// The window offset that keeps coordinate `c` inside `[start, start + dim)`
/// while moving `start` as little as possible; an empty dimension leaves the
/// offset alone.
pub open spec fn spec_scroll(start: int, dim: int, c: int) -> int {
    if dim <= 0 {
        start
    } else if c < start {
        c
    } else if c >= start + dim {
        c - dim + 1
    } else {
        start
    }
}

/// The larger of two integers.
pub open spec fn imax(a: int, b: int) -> int {
    if a >= b {
        a
    } else {
        b
    }
}

/// The byte a typed character stores in the buffer: its code point reduced to
/// one byte. The buffer is a raw byte store; no multi-byte encoding is done.
pub open spec fn byte_of_char(c: char) -> u8 {
    (((c as u32) % 256) as u8)
}

/// The line sequence an edit works on: an empty buffer is treated as holding
/// one empty line, so edits at the cursor always have a line to land in.
pub open spec fn lines_or_one(lines: Seq<Seq<u8>>) -> Seq<Seq<u8>> {
    if lines.len() == 0 {
        lines.push(Seq::<u8>::empty())
    } else {
        lines
    }
}

/// The buffer row an edit lands in: the cursor row clamped to the last line.
pub open spec fn edit_row(lines: Seq<Seq<u8>>, cursor: (usize, usize)) -> int
    recommends
        lines.len() > 0,
{
    imin(cursor.1 as int, lines.len() - 1)
}

/// The byte offset an edit lands at: the cursor column clamped to the length
/// of the line the edit lands in.
pub open spec fn edit_col(lines: Seq<Seq<u8>>, cursor: (usize, usize)) -> int
    recommends
        lines.len() > 0,
{
    imin(cursor.0 as int, lines[edit_row(lines, cursor)].len() as int)
}

/// How `View::navigate` transforms the viewport: each cursor coordinate is
/// shifted by its delta and clamped at zero, and the window follows the
/// cursor.
pub open spec fn navigate_rel(pre: View, dx: int, dy: int, post: View) -> bool {
    &&& post.file == pre.file
    &&& post.height == pre.height
    &&& post.width == pre.width
    &&& post.cursor.0 == spec_shift(pre.cursor.0 as int, dx)
    &&& post.cursor.1 == spec_shift(pre.cursor.1 as int, dy)
    &&& post.start_line == spec_scroll(
        pre.start_line as int,
        pre.height as int,
        spec_shift(pre.cursor.1 as int, dy),
    )
    &&& post.start_col == spec_scroll(
        pre.start_col as int,
        pre.width as int,
        spec_shift(pre.cursor.0 as int, dx),
    )
}

/// How `View::insert` transforms the viewport: the typed character's byte is
/// inserted at the clamped cursor position, the cursor advances one column,
/// and the window follows the cursor.
pub open spec fn insert_rel(pre: View, c: char, post: View) -> bool {
    let lines0 = lines_or_one(pre.file.lines_model());
    let row = edit_row(lines0, pre.cursor);
    let col = edit_col(lines0, pre.cursor);
    let cx = imin(col + 1, usize::MAX as int);
    &&& post.file.lines_model() == lines0.update(row, lines0[row].insert(col, byte_of_char(c)))
    &&& post.file.trailing_newline == pre.file.trailing_newline
    &&& post.height == pre.height
    &&& post.width == pre.width
    &&& post.cursor.0 == cx
    &&& post.cursor.1 == row
    &&& post.start_line == spec_scroll(pre.start_line as int, pre.height as int, row)
    &&& post.start_col == spec_scroll(pre.start_col as int, pre.width as int, cx)
}

/// How `View::insert_new_line` transforms the viewport: the line under the
/// cursor splits at the clamped cursor column, the cursor moves to column
/// zero of the newly created next line, and the window follows the cursor.
pub open spec fn insert_new_line_rel(pre: View, post: View) -> bool {
    let lines0 = lines_or_one(pre.file.lines_model());
    let row = edit_row(lines0, pre.cursor);
    let col = edit_col(lines0, pre.cursor);
    &&& post.file.lines_model() == lines0.update(row, lines0[row].subrange(0, col)).insert(
        row + 1,
        lines0[row].subrange(col, lines0[row].len() as int),
    )
    &&& post.file.trailing_newline == pre.file.trailing_newline
    &&& post.height == pre.height
    &&& post.width == pre.width
    &&& post.cursor.0 == 0
    &&& post.cursor.1 == row + 1
    &&& post.start_line == spec_scroll(pre.start_line as int, pre.height as int, row + 1)
    &&& post.start_col == spec_scroll(pre.start_col as int, pre.width as int, 0)
}

/// How `View::delete` transforms the viewport: the byte before the clamped
/// cursor is removed and the cursor steps back one column; at column zero of
/// a line after the first, that line joins the previous one and the cursor
/// lands at the former end of the previous line; at the very start of the
/// buffer, or in an empty buffer, nothing changes. The window follows the
/// cursor.
pub open spec fn delete_rel(pre: View, post: View) -> bool {
    let lines0 = pre.file.lines_model();
    if lines0.len() == 0 {
        post == pre
    } else {
        let row = edit_row(lines0, pre.cursor);
        let col = edit_col(lines0, pre.cursor);
        if col > 0 {
            &&& post.file.lines_model() == lines0.update(row, lines0[row].remove(col - 1))
            &&& post.file.trailing_newline == pre.file.trailing_newline
            &&& post.height == pre.height
            &&& post.width == pre.width
            &&& post.cursor.0 == col - 1
            &&& post.cursor.1 == row
            &&& post.start_line == spec_scroll(pre.start_line as int, pre.height as int, row)
            &&& post.start_col == spec_scroll(pre.start_col as int, pre.width as int, col - 1)
        } else if row > 0 {
            let joined = lines0[row - 1] + lines0[row];
            &&& post.file.lines_model() == lines0.update(row - 1, joined).remove(row)
            &&& post.file.trailing_newline == pre.file.trailing_newline
            &&& post.height == pre.height
            &&& post.width == pre.width
            &&& post.cursor.0 == lines0[row - 1].len()
            &&& post.cursor.1 == row - 1
            &&& post.start_line == spec_scroll(pre.start_line as int, pre.height as int, row - 1)
            &&& post.start_col == spec_scroll(
                pre.start_col as int,
                pre.width as int,
                lines0[row - 1].len() as int,
            )
        } else {
            post == pre
        }
    }
}

/// The visible portion of a file being displayed: a window offset, the window
/// dimensions, and a cursor, over an exclusively owned `File`.
pub struct View {
    /// The file being displayed.
    pub file: File,
    /// The line number of the first visible line.
    pub start_line: usize,
    /// The column number of the first visible column.
    pub start_col: usize,
    /// The number of lines being displayed.
    pub height: usize,
    /// The number of columns being displayed.
    pub width: usize,
    /// The cursor position in buffer coordinates, as (column, line).
    pub cursor: (usize, usize),
}

impl View {
    pub open spec fn wf(self) -> bool {
        self.file.wf()
    }

    /// The bytes of buffer line `start_line + row` that fall inside the
    /// visible column range `[start_col, start_col + width)`, clamped to the
    /// line's true length; empty for rows at or past the end of the buffer.
    pub open spec fn vline(self, row: int) -> Seq<u8> {
        let idx = self.start_line + row;
        let lines = self.file.lines_model();
        if 0 <= idx < lines.len() {
            let l = lines[idx];
            let lo = imin(self.start_col as int, l.len() as int);
            let hi = imin(self.start_col + self.width, l.len() as int);
            l.subrange(lo, hi)
        } else {
            Seq::empty()
        }
    }

    /// A fresh view of `file`: window at the origin, cursor at the origin.
    pub fn new(file: File, height: usize, width: usize) -> (r: View)
        ensures
            r.file == file,
            r.start_line == 0,
            r.start_col == 0,
            r.height == height,
            r.width == width,
            r.cursor.0 == 0 && r.cursor.1 == 0,
    {
        View { file, start_line: 0, start_col: 0, height, width, cursor: (0, 0) }
    }

    /// Moves the window offsets as little as needed so the cursor lies inside
    /// the visible rectangle (when the dimensions allow it at all).
    fn scroll_to_cursor(&mut self)
        ensures
            final(self).file == old(self).file,
            final(self).height == old(self).height,
            final(self).width == old(self).width,
            final(self).cursor == old(self).cursor,
            final(self).start_line == spec_scroll(
                old(self).start_line as int,
                old(self).height as int,
                old(self).cursor.1 as int,
            ),
            final(self).start_col == spec_scroll(
                old(self).start_col as int,
                old(self).width as int,
                old(self).cursor.0 as int,
            ),
    {
        self.start_line = scroll_fix(self.start_line, self.height, self.cursor.1);
        self.start_col = scroll_fix(self.start_col, self.width, self.cursor.0);
    }

    /// Updates the visible dimensions without moving the window offsets,
    /// except that the window scrolls minimally if the cursor would fall
    /// outside the resized rectangle.
    pub fn resize(&mut self, height: usize, width: usize)
        ensures
            final(self).file == old(self).file,
            final(self).height == height,
            final(self).width == width,
            final(self).cursor == old(self).cursor,
            final(self).start_line == spec_scroll(
                old(self).start_line as int,
                height as int,
                old(self).cursor.1 as int,
            ),
            final(self).start_col == spec_scroll(
                old(self).start_col as int,
                width as int,
                old(self).cursor.0 as int,
            ),
    {
        self.height = height;
        self.width = width;
        self.scroll_to_cursor();
    }

    /// The visible slice of display row `row`, as raw bytes: never longer
    /// than the window width, never read past the underlying line's length,
    /// and empty for rows beyond the end of the buffer.
    pub fn visible_line(&self, row: usize) -> (r: Vec<u8>)
        ensures
            r@ == self.vline(row as int),
            r@.len() <= self.width,
    {
        if row > usize::MAX - self.start_line {
            let n = self.file.len();
            let r: Vec<u8> = Vec::new();
            proof {
                assert(self.start_line + row as int > usize::MAX as int >= n);
                assert(r@ =~= self.vline(row as int));
            }
            return r;
        }
        let idx = self.start_line + row;
        match self.file.get_line(idx) {
            None => {
                let r: Vec<u8> = Vec::new();
                proof {
                    assert(r@ =~= self.vline(row as int));
                }
                r
            },
            Some(line) => {
                let len = line.len();
                let lo = if self.start_col < len {
                    self.start_col
                } else {
                    len
                };
                let hi = if self.start_col >= len {
                    len
                } else if self.width >= len - self.start_col {
                    len
                } else {
                    self.start_col + self.width
                };
                let mut out: Vec<u8> = Vec::new();
                proof {
                    assert(out@ =~= line@.subrange(lo as int, lo as int));
                }
                let mut k = lo;
                while k < hi
                    invariant
                        lo <= k <= hi <= len,
                        len == line@.len(),
                        out@ == line@.subrange(lo as int, k as int),
                    decreases hi - k,
                {
                    out.push(line[k]);
                    proof {
                        assert(line@.subrange(lo as int, k + 1) =~= line@.subrange(
                            lo as int,
                            k as int,
                        ).push(line@[k as int]));
                    }
                    k = k + 1;
                }
                proof {
                    assert(out@ =~= self.vline(row as int));
                }
                out
            },
        }
    }

    /// The visible slice of display row `index`, decoded for display: the
    /// clamped byte slice rendered as text, invalid sequences substituted.
    pub fn get_line(&self, index: usize) -> (r: String)
        ensures
            r@ == lossy_of(self.vline(index as int)),
    {
        let bytes = self.visible_line(index);
        lossy_string(bytes.as_slice())
    }

    /// Shifts the cursor by the given deltas. Each coordinate is clamped to
    /// stay non-negative; the cursor is not clamped against the buffer's
    /// extent (reads and edits clamp it on use), and the window follows the
    /// cursor.
    pub fn navigate(&mut self, dx: isize, dy: isize)
        ensures
            navigate_rel(*old(self), dx as int, dy as int, *final(self)),
            old(self).wf() ==> final(self).wf(),
    {
        let x = shift_coord(self.cursor.0, dx);
        let y = shift_coord(self.cursor.1, dy);
        self.cursor = (x, y);
        self.scroll_to_cursor();
    }

    /// Makes sure the buffer holds at least one line, so an edit has a line
    /// to land in.
    fn ensure_line(&mut self)
        ensures
            final(self).file.lines_model() == lines_or_one(old(self).file.lines_model()),
            final(self).file.trailing_newline == old(self).file.trailing_newline,
            final(self).start_line == old(self).start_line,
            final(self).start_col == old(self).start_col,
            final(self).height == old(self).height,
            final(self).width == old(self).width,
            final(self).cursor == old(self).cursor,
            final(self).file.lines_model().len() > 0,
            old(self).wf() ==> final(self).wf(),
    {
        if self.file.len() == 0 {
            self.file.push_empty_line();
        }
    }

    /// The row the next edit lands in, the cursor row clamped to the buffer.
    fn clamped_row(&self) -> (r: usize)
        requires
            self.file.lines_model().len() > 0,
        ensures
            r == edit_row(self.file.lines_model(), self.cursor),
    {
        let n = self.file.len();
        if self.cursor.1 < n {
            self.cursor.1
        } else {
            n - 1
        }
    }

    /// Inserts the typed character's byte at the cursor's clamped position
    /// and advances the cursor one column right.
    pub fn insert(&mut self, c: char)
        ensures
            insert_rel(*old(self), c, *final(self)),
            old(self).wf() ==> final(self).wf(),
    {
        self.ensure_line();
        let row = self.clamped_row();
        let line_len = self.file.lines[row].len();
        let col = if self.cursor.0 < line_len {
            self.cursor.0
        } else {
            line_len
        };
        let code = c as u32;
        let b = (code % 256) as u8;
        self.file.insert_byte(row, col, b);
        let cx = if col < usize::MAX {
            col + 1
        } else {
            usize::MAX
        };
        self.cursor = (cx, row);
        self.scroll_to_cursor();
    }

    /// Splits the line under the cursor at the cursor's clamped column and
    /// moves the cursor to column zero of the newly created next line.
    pub fn insert_new_line(&mut self)
        ensures
            insert_new_line_rel(*old(self), *final(self)),
            old(self).wf() ==> final(self).wf(),
    {
        self.ensure_line();
        let n = self.file.len();
        let row = self.clamped_row();
        proof {
            assert(row < n);
        }
        let line_len = self.file.lines[row].len();
        let col = if self.cursor.0 < line_len {
            self.cursor.0
        } else {
            line_len
        };
        self.file.split_line(row, col);
        self.cursor = (0, row + 1);
        self.scroll_to_cursor();
    }

    /// Removes the byte before the cursor (backspace); at column zero of a
    /// line after the first, joins that line onto the previous one and puts
    /// the cursor at the former boundary.
    pub fn delete(&mut self)
        ensures
            delete_rel(*old(self), *final(self)),
            old(self).wf() ==> final(self).wf(),
    {
        let n = self.file.len();
        if n == 0 {
            return ;
        }
        let row = self.clamped_row();
        let line_len = self.file.lines[row].len();
        let col = if self.cursor.0 < line_len {
            self.cursor.0
        } else {
            line_len
        };
        if col > 0 {
            self.file.remove_byte(row, col - 1);
            self.cursor = (col - 1, row);
            self.scroll_to_cursor();
        } else if row > 0 {
            let prev_len = self.file.lines[row - 1].len();
            self.file.merge_line(row);
            self.cursor = (prev_len, row - 1);
            self.scroll_to_cursor();
        }
    }

    /// Number of rows `render_text` shows: the window height, or what is
    /// left of the buffer below `start_line` if that is less.
    pub open spec fn spec_bottom(self) -> int {
        imin(self.height as int, imax(self.file.lines_model().len() - self.start_line, 0))
    }

    /// The text of the first `rows` visible rows, joined with newlines.
    pub open spec fn render_rows(self, rows: int) -> Seq<char>
        decreases rows,
    {
        if rows <= 0 {
            Seq::empty()
        } else if rows == 1 {
            lossy_of(self.vline(0))
        } else {
            self.render_rows(rows - 1) + seq!['\n'] + lossy_of(self.vline(rows - 1))
        }
    }

    /// The window's full text: the visible rows that overlap the buffer,
    /// decoded for display and joined with newline separators.
    pub open spec fn spec_render(self) -> Seq<char> {
        self.render_rows(self.spec_bottom())
    }

    /// Renders the visible window as text: one decoded line per visible row
    /// that overlaps the buffer, joined with newline separators.
    pub fn render_text(&self) -> (r: String)
        ensures
            r@ == self.spec_render(),
    {
        let flen = self.file.len();
        let bottom = if flen > self.start_line {
            let avail = flen - self.start_line;
            if self.height < avail {
                self.height
            } else {
                avail
            }
        } else {
            0
        };
        proof {
            assert(bottom as int == self.spec_bottom());
        }
        let mut out = String::new();
        for i in 0..bottom
            invariant
                bottom as int == self.spec_bottom(),
                out@ == self.render_rows(i as int),
        {
            if i > 0 {
                out.append("\n");
                proof {
                    reveal_strlit("\n");
                    assert("\n"@ =~= seq!['\n']);
                }
            }
            let line = self.get_line(i);
            out.append(line.as_str());
            proof {
                if i == 0 {
                    assert(out@ =~= self.render_rows(1));
                } else {
                    assert(out@ =~= self.render_rows(i as int) + seq!['\n'] + lossy_of(
                        self.vline(i as int),
                    ));
                }
            }
        }
        out
    }

    /// The exact serialized bytes of the underlying file.
    pub fn dump_file(&self) -> (r: Vec<u8>)
        ensures
            r@ == self.file.serialize(),
    {
        self.file.to_bytes()
    }
}

/// Non-negative cursor: a coordinate that starts non-negative stays
/// non-negative under any shifted-and-clamped move, so any sequence of
/// `navigate` calls from the initial cursor keeps both coordinates
/// non-negative.
pub proof fn lemma_shift_nonneg(c: int, d: int)
    requires
        c >= 0,
    ensures
        spec_shift(c, d) >= 0,
{
}

/// The window follows the cursor: whenever the window has room at all, the
/// minimally moved offset puts the followed coordinate inside the visible
/// range, so navigation and edits always leave the cursor visible.
pub proof fn lemma_scroll_keeps_cursor_visible(start: int, dim: int, c: int)
    requires
        dim > 0,
        0 <= start,
        0 <= c,
    ensures
        spec_scroll(start, dim, c) <= c < spec_scroll(start, dim, c) + dim,
{
}

/// Clamped slicing: a visible line never holds more than `width` bytes, and
/// every byte it holds is read from the underlying line inside that line's
/// true length.
pub proof fn lemma_vline_clamped(v: View, row: int)
    ensures
        v.vline(row).len() <= v.width,
        v.vline(row).len() > 0 ==> 0 <= v.start_line + row < v.file.lines_model().len(),
        forall|k: int|
            0 <= k < v.vline(row).len() ==> #[trigger] (imin(
                v.start_col as int,
                v.file.lines_model()[v.start_line + row].len() as int,
            ) + k) < v.file.lines_model()[v.start_line + row].len(),
        forall|k: int|
            0 <= k < v.vline(row).len() ==> #[trigger] v.vline(row)[k]
                == v.file.lines_model()[v.start_line + row][imin(
                v.start_col as int,
                v.file.lines_model()[v.start_line + row].len() as int,
            ) + k],
{
}

/// `c` shifted by `d`, clamped below at zero and above at the machine word.
fn shift_coord(c: usize, d: isize) -> (r: usize)
    ensures
        r == spec_shift(c as int, d as int),
{
    if d >= 0 {
        let du = d as usize;
        if c <= usize::MAX - du {
            c + du
        } else {
            usize::MAX
        }
    } else {
        let du = if d == isize::MIN {
            (isize::MAX as usize) + 1
        } else {
            (-d) as usize
        };
        if c >= du {
            c - du
        } else {
            0
        }
    }
}

/// `start` moved minimally so that `c` lies in `[start, start + dim)`.
fn scroll_fix(start: usize, dim: usize, c: usize) -> (r: usize)
    ensures
        r == spec_scroll(start as int, dim as int, c as int),
{
    if dim == 0 {
        start
    } else if c < start {
        c
    } else if c - start >= dim {
        c - dim + 1
    } else {
        start
    }
}

} // verus!
