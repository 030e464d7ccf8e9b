//! Incremental line assembly for the elevated session's log tail: the
//! detached elevated process writes its output to a file, which is read
//! in arbitrary chunks. A possible byte-order mark on the very first
//! chunk is dropped, a partial trailing line is buffered across reads,
//! carriage returns before the line breaks are stripped, and empty lines
//! are discarded.

use vstd::prelude::*;
use vstd::string::{StrSliceExecFns, StringExecFns};
use crate::chars::{
    chars_of, spec_nonempty_pieces, spec_split, spec_trim_end_matching, split_char, trim_end_char,
};

verus! {

/// A chunk with the byte-order mark removed, when this is the first
/// non-empty chunk and it carries one.
pub open spec fn spec_after_bom(chunk: Seq<char>, bom_pending: bool) -> Seq<char> {
    if bom_pending && chunk.len() > 0 && chunk[0] == '\u{FEFF}' {
        chunk.skip(1)
    } else {
        chunk
    }
}

/// The complete lines in `pending + chunk`: everything up to the last
/// line break, normalized and with empty lines dropped.
pub open spec fn spec_complete_lines(pending: Seq<char>, chunk: Seq<char>) -> Seq<Seq<char>> {
    let pieces = spec_split(pending + chunk, '\n');
    spec_nonempty_pieces(
        pieces.take(pieces.len() - 1).map_values(|p: Seq<char>| spec_trim_end_matching(p, '\r')),
    )
}

/// What remains after the last line break of `pending + chunk`.
pub open spec fn spec_partial_line(pending: Seq<char>, chunk: Seq<char>) -> Seq<char> {
    let pieces = spec_split(pending + chunk, '\n');
    pieces.last()
}

/// Every line in `pending + chunk`, the unterminated tail included.
pub open spec fn spec_all_lines(pending: Seq<char>, chunk: Seq<char>) -> Seq<Seq<char>> {
    let pieces = spec_split(pending + chunk, '\n');
    spec_nonempty_pieces(pieces.map_values(|p: Seq<char>| spec_trim_end_matching(p, '\r')))
}

/// Assembles complete lines out of a stream of text chunks.
pub struct LineAssembler {
    /// The partial line carried over from the previous chunk.
    pub pending: String,
    /// No non-empty chunk has arrived yet, so a byte-order mark may
    /// still be waiting to be stripped.
    pub bom_pending: bool,
}

impl LineAssembler {
    pub fn new() -> (r: LineAssembler)
        ensures
            r.pending@ == Seq::<char>::empty(),
            r.bom_pending,
    {
        LineAssembler { pending: String::new(), bom_pending: true }
    }

    /// Take in one chunk; returns the lines it completes, in order.
    pub fn feed(&mut self, chunk: &str) -> (lines: Vec<String>)
        ensures
            final(self).bom_pending == (old(self).bom_pending && chunk@.len() == 0),
            lines.deep_view() == spec_complete_lines(
                old(self).pending@,
                spec_after_bom(chunk@, old(self).bom_pending),
            ),
            final(self).pending@ == spec_partial_line(
                old(self).pending@,
                spec_after_bom(chunk@, old(self).bom_pending),
            ),
    {
        let chunk_chars = chars_of(chunk);
        let mut from: usize = 0;
        if self.bom_pending && chunk_chars.len() > 0 {
            self.bom_pending = false;
            if chunk_chars[0] == '\u{FEFF}' {
                from = 1;
            }
        }
        let cleaned = chunk.substring_char(from, chunk_chars.len());
        proof {
            assert(cleaned@ =~= spec_after_bom(chunk@, old(self).bom_pending));
        }
        let mut text = self.pending.clone();
        text.append(cleaned);
        let pieces = split_char(text.as_str(), '\n');
        let ghost piece_views = spec_split(old(self).pending@ + cleaned@, '\n');
        let m = pieces.len();
        proof {
            assert(piece_views.len() >= 1);
        }
        let ghost complete = piece_views.take(piece_views.len() - 1).map_values(
            |p: Seq<char>| spec_trim_end_matching(p, '\r'),
        );
        let mut lines: Vec<String> = Vec::new();
        let mut i: usize = 0;
        proof {
            assert(complete.skip(0) =~= complete);
            assert(lines.deep_view() + spec_nonempty_pieces(complete) =~= spec_nonempty_pieces(
                complete,
            ));
        }
        while i < m - 1
            invariant
                m == pieces@.len(),
                m >= 1,
                pieces.deep_view() == piece_views,
                complete == piece_views.take(piece_views.len() - 1).map_values(
                    |p: Seq<char>| spec_trim_end_matching(p, '\r'),
                ),
                i <= m - 1,
                spec_nonempty_pieces(complete) == lines.deep_view() + spec_nonempty_pieces(
                    complete.skip(i as int),
                ),
            decreases m - i,
        {
            proof {
                assert(pieces.deep_view()[i as int] == pieces@[i as int]@);
                assert(complete[i as int] == spec_trim_end_matching(piece_views[i as int], '\r'));
                assert(complete.skip(i as int)[0] == complete[i as int]);
                assert(complete.skip(i as int).skip(1) =~= complete.skip(i + 1));
            }
            let line = trim_end_char(pieces[i].as_str(), '\r');
            if !line.as_str().is_empty() {
                let ghost dv_before = lines.deep_view();
                lines.push(line);
                proof {
                    assert(lines.deep_view() =~= dv_before.push(complete[i as int]));
                    assert(dv_before + (seq![complete[i as int]] + spec_nonempty_pieces(
                        complete.skip(i + 1),
                    )) =~= lines.deep_view() + spec_nonempty_pieces(complete.skip(i + 1)));
                }
            }
            i = i + 1;
        }
        proof {
            assert(complete.skip((m - 1) as int) =~= Seq::<Seq<char>>::empty());
            assert(lines.deep_view() + Seq::<Seq<char>>::empty() =~= lines.deep_view());
            assert(pieces.deep_view()[m - 1] == pieces@[m - 1]@);
        }
        self.pending = pieces[m - 1].clone();
        lines
    }

    /// Drain the buffered tail together with a final chunk, as done when
    /// the exit marker appears: the unterminated last line counts too.
    pub fn finish(&mut self, final_chunk: &str) -> (lines: Vec<String>)
        ensures
            lines.deep_view() == spec_all_lines(old(self).pending@, final_chunk@),
            final(self).pending@ == Seq::<char>::empty(),
            final(self).bom_pending == old(self).bom_pending,
    {
        let mut text = self.pending.clone();
        text.append(final_chunk);
        let pieces = split_char(text.as_str(), '\n');
        let ghost piece_views = spec_split(old(self).pending@ + final_chunk@, '\n');
        let ghost mapped = piece_views.map_values(
            |p: Seq<char>| spec_trim_end_matching(p, '\r'),
        );
        let m = pieces.len();
        let mut lines: Vec<String> = Vec::new();
        let mut i: usize = 0;
        proof {
            assert(mapped.skip(0) =~= mapped);
            assert(lines.deep_view() + spec_nonempty_pieces(mapped) =~= spec_nonempty_pieces(
                mapped,
            ));
        }
        while i < m
            invariant
                m == pieces@.len(),
                pieces.deep_view() == piece_views,
                mapped == piece_views.map_values(|p: Seq<char>| spec_trim_end_matching(p, '\r')),
                i <= m,
                spec_nonempty_pieces(mapped) == lines.deep_view() + spec_nonempty_pieces(
                    mapped.skip(i as int),
                ),
            decreases m - i,
        {
            proof {
                assert(pieces.deep_view()[i as int] == pieces@[i as int]@);
                assert(mapped[i as int] == spec_trim_end_matching(piece_views[i as int], '\r'));
                assert(mapped.skip(i as int)[0] == mapped[i as int]);
                assert(mapped.skip(i as int).skip(1) =~= mapped.skip(i + 1));
            }
            let line = trim_end_char(pieces[i].as_str(), '\r');
            if !line.as_str().is_empty() {
                let ghost dv_before = lines.deep_view();
                lines.push(line);
                proof {
                    assert(lines.deep_view() =~= dv_before.push(mapped[i as int]));
                    assert(dv_before + (seq![mapped[i as int]] + spec_nonempty_pieces(
                        mapped.skip(i + 1),
                    )) =~= lines.deep_view() + spec_nonempty_pieces(mapped.skip(i + 1)));
                }
            }
            i = i + 1;
        }
        proof {
            assert(mapped.skip(m as int) =~= Seq::<Seq<char>>::empty());
            assert(lines.deep_view() + Seq::<Seq<char>>::empty() =~= lines.deep_view());
        }
        self.pending = String::new();
        lines
    }
}

} // verus!
