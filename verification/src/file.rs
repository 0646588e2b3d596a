//! The document buffer: an ordered sequence of lines, each a raw byte
//! sequence, together with whether the loaded bytes ended with a newline.
//! Splitting on the newline byte and re-joining round-trips byte for byte.

use vstd::prelude::*;

verus! {

/// The byte that separates lines in serialized form.
pub const NEWLINE: u8 = 10;

/// In-memory document: lines of raw bytes, plus whether the serialized form
/// carries a final newline byte.
pub struct File {
    /// The lines of the document, without their newline separators.
    pub lines: Vec<Vec<u8>>,
    /// Whether the serialized form ends with a newline byte.
    pub trailing_newline: bool,
}

/// `lines` joined with a single newline byte between consecutive lines.
pub open spec fn join_sep(lines: Seq<Seq<u8>>) -> Seq<u8>
    decreases lines.len(),
{
    if lines.len() == 0 {
        Seq::empty()
    } else if lines.len() == 1 {
        lines[0]
    } else {
        join_sep(lines.drop_last()) + seq![NEWLINE] + lines.last()
    }
}

/// `lines` with every line, the last included, followed by a newline byte.
pub open spec fn join_term(lines: Seq<Seq<u8>>) -> Seq<u8>
    decreases lines.len(),
{
    if lines.len() == 0 {
        Seq::empty()
    } else {
        join_term(lines.drop_last()) + lines.last() + seq![NEWLINE]
    }
}

/// Number of newline bytes in `data`.
pub open spec fn count_newlines(data: Seq<u8>) -> int
    decreases data.len(),
{
    if data.len() == 0 {
        0
    } else {
        count_newlines(data.drop_last()) + if data.last() == NEWLINE {
            1int
        } else {
            0int
        }
    }
}

/// How many lines splitting `data` on the newline byte produces: one per
/// newline byte, plus one for a final segment not closed by a newline.
pub open spec fn spec_line_count(data: Seq<u8>) -> int {
    count_newlines(data) + if data.len() > 0 && data.last() != NEWLINE {
        1int
    } else {
        0int
    }
}

pub proof fn lemma_join_term_push(lines: Seq<Seq<u8>>, line: Seq<u8>)
    ensures
        join_term(lines.push(line)) == join_term(lines) + line + seq![NEWLINE],
{
    assert(lines.push(line).drop_last() =~= lines);
    assert(lines.push(line).last() == line);
}

pub proof fn lemma_join_sep_push(lines: Seq<Seq<u8>>, line: Seq<u8>)
    ensures
        lines.len() == 0 ==> join_sep(lines.push(line)) == line,
        lines.len() > 0 ==> join_sep(lines.push(line)) == join_sep(lines) + seq![NEWLINE]
            + line,
{
    assert(lines.push(line).drop_last() =~= lines);
    assert(lines.push(line).last() == line);
    if lines.len() == 0 {
        assert(join_sep(lines.push(line)) == lines.push(line)[0]);
        assert(lines.push(line)[0] == line);
    }
}

/// Terminating every line with a newline is the same as separating the lines
/// with newlines and adding one final newline.
pub proof fn lemma_join_term_is_join_sep(lines: Seq<Seq<u8>>)
    requires
        lines.len() > 0,
    ensures
        join_term(lines) == join_sep(lines) + seq![NEWLINE],
    decreases lines.len(),
{
    if lines.len() == 1 {
        assert(join_term(lines.drop_last()) == Seq::<u8>::empty());
        assert(join_term(lines) =~= lines[0] + seq![NEWLINE]);
        assert(join_sep(lines) + seq![NEWLINE] =~= lines[0] + seq![NEWLINE]);
    } else {
        lemma_join_term_is_join_sep(lines.drop_last());
        assert(join_term(lines) == (join_sep(lines.drop_last()) + seq![NEWLINE]) + lines.last()
            + seq![NEWLINE]);
        assert((join_sep(lines.drop_last()) + seq![NEWLINE]) + lines.last() =~= join_sep(
            lines.drop_last(),
        ) + seq![NEWLINE] + lines.last());
    }
}

impl File {
    /// The mathematical model of the document: its lines as byte sequences.
    pub open spec fn lines_model(self) -> Seq<Seq<u8>> {
        self.lines.deep_view()
    }

    /// A recorded trailing newline implies at least one line, so that the
    /// serialized form is the exact inverse of splitting.
    pub open spec fn wf(self) -> bool {
        self.trailing_newline ==> self.lines.len() >= 1
    }

    /// The exact byte sequence the document serializes to.
    pub open spec fn serialize(self) -> Seq<u8> {
        join_sep(self.lines_model()) + if self.trailing_newline {
            seq![NEWLINE]
        } else {
            Seq::<u8>::empty()
        }
    }

    /// A document with no lines, serializing to no bytes.
    pub fn new() -> (r: File)
        ensures
            r.wf(),
            r.lines_model() == Seq::<Seq<u8>>::empty(),
            !r.trailing_newline,
            r.serialize() == Seq::<u8>::empty(),
    {
        let r = File { lines: Vec::new(), trailing_newline: false };
        proof {
            assert(r.lines_model() =~= Seq::<Seq<u8>>::empty());
            assert(r.serialize() =~= Seq::<u8>::empty());
        }
        r
    }

    /// Number of lines in the document.
    pub fn len(&self) -> (r: usize)
        ensures
            r == self.lines_model().len(),
    {
        self.lines.len()
    }

    /// Splits `data` on the newline byte into lines, recording whether a
    /// trailing newline was present, so that `to_bytes` reproduces `data`
    /// exactly: serializing the result yields `data` again, and the number of
    /// lines is the number of newline-delimited segments.
    pub fn from_bytes(data: &[u8]) -> (r: File)
        ensures
            r.wf(),
            r.serialize() == data@,
            r.lines_model().len() == spec_line_count(data@),
            r.trailing_newline == (data@.len() > 0 && data@.last() == NEWLINE),
    {
        let mut lines: Vec<Vec<u8>> = Vec::new();
        let mut current: Vec<u8> = Vec::new();
        let n = data.len();
        proof {
            assert(data@.subrange(0, 0) =~= Seq::<u8>::empty());
            assert(join_term(lines.deep_view()) + current@ =~= Seq::<u8>::empty());
        }
        for i in 0..n
            invariant
                n == data@.len(),
                join_term(lines.deep_view()) + current@ == data@.subrange(0, i as int),
                lines.deep_view().len() == count_newlines(data@.subrange(0, i as int)),
                current@.len() == 0 <==> (i == 0 || data@[i as int - 1] == NEWLINE),
        {
            let ghost prefix = data@.subrange(0, i as int);
            let ghost old_lines = lines.deep_view();
            let ghost old_current = current@;
            let b = data[i];
            if b == NEWLINE {
                lines.push(current);
                current = Vec::new();
                proof {
                    assert(lines.deep_view() =~~= old_lines.push(old_current));
                    lemma_join_term_push(old_lines, old_current);
                    assert(join_term(lines.deep_view()) + current@ =~= (join_term(old_lines)
                        + old_current) + seq![NEWLINE]);
                }
            } else {
                current.push(b);
                proof {
                    assert(join_term(lines.deep_view()) + current@ =~= (join_term(
                        lines.deep_view(),
                    ) + old_current) + seq![b]);
                }
            }
            proof {
                assert(data@.subrange(0, i + 1) =~= prefix.push(b));
                assert(prefix.push(b).drop_last() =~= prefix);
                assert(prefix.push(b) + Seq::<u8>::empty() =~= prefix.push(b));
                assert(join_term(lines.deep_view()) + current@ =~= prefix.push(b));
            }
        }
        proof {
            assert(data@.subrange(0, n as int) =~= data@);
        }
        let trailing = n > 0 && current.len() == 0;
        let r: File;
        if current.len() > 0 {
            let ghost old_lines = lines.deep_view();
            let ghost last_line = current@;
            lines.push(current);
            r = File { lines, trailing_newline: false };
            proof {
                assert(r.lines_model() =~~= old_lines.push(last_line));
                lemma_join_sep_push(old_lines, last_line);
                if old_lines.len() == 0 {
                    assert(join_term(old_lines) =~= Seq::<u8>::empty());
                    assert(join_term(old_lines) + last_line =~= last_line);
                } else {
                    lemma_join_term_is_join_sep(old_lines);
                    assert(join_sep(r.lines_model()) =~= (join_sep(old_lines) + seq![NEWLINE])
                        + last_line);
                }
                assert(join_sep(r.lines_model()) =~= join_term(old_lines) + last_line);
                assert(r.serialize() =~= join_sep(r.lines_model()));
                assert(r.serialize() == data@);
            }
        } else {
            r = File { lines, trailing_newline: trailing };
            proof {
                if n > 0 {
                    assert(data@[n as int - 1] == NEWLINE);
                    assert(data@.last() == NEWLINE);
                    assert(data@.drop_last() =~= data@.subrange(0, n as int - 1));
                    assert(count_newlines(data@) >= 1);
                    assert(r.lines_model().len() >= 1);
                    lemma_join_term_is_join_sep(r.lines_model());
                    assert(join_term(r.lines_model()) + Seq::<u8>::empty() =~= join_term(
                        r.lines_model(),
                    ));
                    assert(r.serialize() =~= join_term(r.lines_model()));
                    assert(r.serialize() == data@);
                } else {
                    assert(data@ =~= Seq::<u8>::empty());
                    assert(r.lines_model().len() == 0);
                    assert(r.serialize() =~= Seq::<u8>::empty());
                }
            }
        }
        r
    }

    /// Serializes the document: lines joined with the newline byte, with a
    /// final newline exactly when one was recorded.
    pub fn to_bytes(&self) -> (r: Vec<u8>)
        ensures
            r@ == self.serialize(),
    {
        let mut out: Vec<u8> = Vec::new();
        let n = self.lines.len();
        proof {
            assert(self.lines_model().subrange(0, 0) =~= Seq::<Seq<u8>>::empty());
            assert(out@ =~= join_sep(self.lines_model().subrange(0, 0)));
        }
        for i in 0..n
            invariant
                n == self.lines.len(),
                out@ == join_sep(self.lines_model().subrange(0, i as int)),
        {
            let ghost pre = self.lines_model().subrange(0, i as int);
            if i > 0 {
                out.push(NEWLINE);
            }
            let ghost base = out@;
            let line = &self.lines[i];
            let m = line.len();
            for j in 0..m
                invariant
                    m == line@.len(),
                    out@ == base + line@.subrange(0, j as int),
                    line@ == self.lines_model()[i as int],
            {
                out.push(line[j]);
                proof {
                    assert(line@.subrange(0, j + 1) =~= line@.subrange(0, j as int).push(
                        line@[j as int],
                    ));
                    assert(out@ =~= base + line@.subrange(0, j + 1));
                }
            }
            proof {
                assert(line@.subrange(0, m as int) =~= line@);
                assert(self.lines_model().subrange(0, i + 1) =~= pre.push(line@));
                lemma_join_sep_push(pre, line@);
                if i > 0 {
                    assert(base =~= join_sep(pre) + seq![NEWLINE]);
                    assert(out@ =~= (join_sep(pre) + seq![NEWLINE]) + line@);
                    assert(out@ =~= join_sep(pre.push(line@)));
                } else {
                    assert(base =~= Seq::<u8>::empty());
                    assert(out@ =~= line@);
                    assert(out@ =~= join_sep(pre.push(line@)));
                }
            }
        }
        proof {
            assert(self.lines_model().subrange(0, n as int) =~= self.lines_model());
        }
        if self.trailing_newline {
            out.push(NEWLINE);
            proof {
                assert(out@ =~= join_sep(self.lines_model()) + seq![NEWLINE]);
            }
        } else {
            proof {
                assert(out@ + Seq::<u8>::empty() =~= out@);
            }
        }
        out
    }

    /// The line at `index` as an owned copy, or nothing when `index` is at or
    /// beyond the end of the document; never a fault.
    pub fn get_line(&self, index: usize) -> (r: Option<Vec<u8>>)
        ensures
            match r {
                Some(l) => index < self.lines_model().len() && l@ == self.lines_model()[
                    index as int
                ],
                None => index >= self.lines_model().len(),
            },
    {
        if index < self.lines.len() {
            Some(copy_bytes(&self.lines[index]))
        } else {
            None
        }
    }

    /// Inserts byte `b` into line `row` at byte offset `col`.
    pub fn insert_byte(&mut self, row: usize, col: usize, b: u8)
        requires
            row < old(self).lines_model().len(),
            col <= old(self).lines_model()[row as int].len(),
        ensures
            final(self).lines_model() == old(self).lines_model().update(
                row as int,
                old(self).lines_model()[row as int].insert(col as int, b),
            ),
            final(self).trailing_newline == old(self).trailing_newline,
            old(self).wf() ==> final(self).wf(),
    {
        let ghost old_model = self.lines_model();
        let mut line = self.lines.remove(row);
        line.insert(col, b);
        self.lines.insert(row, line);
        proof {
            assert(line@ =~= old_model[row as int].insert(col as int, b));
            assert(self.lines_model() =~~= old_model.update(
                row as int,
                old_model[row as int].insert(col as int, b),
            ));
        }
    }

    /// Removes the byte at offset `col` of line `row`.
    pub fn remove_byte(&mut self, row: usize, col: usize)
        requires
            row < old(self).lines_model().len(),
            col < old(self).lines_model()[row as int].len(),
        ensures
            final(self).lines_model() == old(self).lines_model().update(
                row as int,
                old(self).lines_model()[row as int].remove(col as int),
            ),
            final(self).trailing_newline == old(self).trailing_newline,
            old(self).wf() ==> final(self).wf(),
    {
        let ghost old_model = self.lines_model();
        let mut line = self.lines.remove(row);
        line.remove(col);
        self.lines.insert(row, line);
        proof {
            assert(line@ =~= old_model[row as int].remove(col as int));
            assert(self.lines_model() =~~= old_model.update(
                row as int,
                old_model[row as int].remove(col as int),
            ));
        }
    }

    /// Splits line `row` at byte offset `col` into two consecutive lines.
    pub fn split_line(&mut self, row: usize, col: usize)
        requires
            row < old(self).lines_model().len(),
            col <= old(self).lines_model()[row as int].len(),
        ensures
            final(self).lines_model() == old(self).lines_model().update(
                row as int,
                old(self).lines_model()[row as int].subrange(0, col as int),
            ).insert(
                row as int + 1,
                old(self).lines_model()[row as int].subrange(
                    col as int,
                    old(self).lines_model()[row as int].len() as int,
                ),
            ),
            final(self).trailing_newline == old(self).trailing_newline,
            old(self).wf() ==> final(self).wf(),
    {
        let ghost old_model = self.lines_model();
        let mut line = self.lines.remove(row);
        let rest = line.split_off(col);
        self.lines.insert(row, rest);
        self.lines.insert(row, line);
        proof {
            assert(self.lines_model() =~~= old_model.update(
                row as int,
                old_model[row as int].subrange(0, col as int),
            ).insert(
                row as int + 1,
                old_model[row as int].subrange(col as int, old_model[row as int].len() as int),
            ));
        }
    }

    /// Joins line `row` onto the end of line `row - 1`, removing line `row`.
    pub fn merge_line(&mut self, row: usize)
        requires
            1 <= row < old(self).lines_model().len(),
        ensures
            final(self).lines_model() == old(self).lines_model().update(
                row as int - 1,
                old(self).lines_model()[row as int - 1] + old(self).lines_model()[row as int],
            ).remove(row as int),
            final(self).trailing_newline == old(self).trailing_newline,
            old(self).wf() ==> final(self).wf(),
    {
        let ghost old_model = self.lines_model();
        let line = self.lines.remove(row);
        let mut prev = self.lines.remove(row - 1);
        let ghost prev_start = prev@;
        let m = line.len();
        for j in 0..m
            invariant
                m == line@.len(),
                prev@ == prev_start + line@.subrange(0, j as int),
        {
            prev.push(line[j]);
            proof {
                assert(line@.subrange(0, j + 1) =~= line@.subrange(0, j as int).push(
                    line@[j as int],
                ));
                assert(prev@ =~= prev_start + line@.subrange(0, j + 1));
            }
        }
        self.lines.insert(row - 1, prev);
        proof {
            assert(line@.subrange(0, m as int) =~= line@);
            assert(prev@ =~= old_model[row as int - 1] + old_model[row as int]);
            assert(self.lines_model() =~~= old_model.update(
                row as int - 1,
                old_model[row as int - 1] + old_model[row as int],
            ).remove(row as int));
        }
    }

    /// Appends an empty line at the end of the document.
    pub fn push_empty_line(&mut self)
        ensures
            final(self).lines_model() == old(self).lines_model().push(Seq::<u8>::empty()),
            final(self).trailing_newline == old(self).trailing_newline,
            old(self).wf() ==> final(self).wf(),
    {
        let ghost old_model = self.lines_model();
        let empty: Vec<u8> = Vec::new();
        self.lines.push(empty);
        proof {
            assert(self.lines_model() =~~= old_model.push(Seq::<u8>::empty()));
        }
    }
}

/// An owned copy of a byte vector.
fn copy_bytes(src: &Vec<u8>) -> (r: Vec<u8>)
    ensures
        r@ == src@,
{
    let mut out: Vec<u8> = Vec::new();
    let n = src.len();
    for i in 0..n
        invariant
            n == src@.len(),
            out@ == src@.subrange(0, i as int),
    {
        out.push(src[i]);
        proof {
            assert(src@.subrange(0, i + 1) =~= src@.subrange(0, i as int).push(src@[i as int]));
            assert(out@ =~= src@.subrange(0, i + 1));
        }
    }
    proof {
        assert(src@.subrange(0, n as int) =~= src@);
    }
    out
}

} // verus!
