//! A text file as a list of lines, split on `\n` only, so that joining the
//! lines back gives the file's text exactly (carriage returns and the final
//! newline included).

use vstd::prelude::*;
use vstd::std_specs::iter::IteratorSpec;
use crate::text::doc_view;

verus! {

/// The lines joined with `\n` between them.
pub open spec fn join_seq(lines: Seq<Seq<char>>) -> Seq<char>
    decreases lines.len(),
{
    if lines.len() == 0 {
        Seq::empty()
    } else if lines.len() == 1 {
        lines[0]
    } else {
        join_seq(lines.drop_last()) + seq!['\n'] + lines.last()
    }
}

/// The text of a document: its lines joined, and a final `\n` where the
/// document ends with one.
pub open spec fn document_text(lines: Seq<Seq<char>>, final_newline: bool) -> Seq<char> {
    if final_newline && lines.len() > 0 {
        join_seq(lines) + seq!['\n']
    } else {
        join_seq(lines)
    }
}

pub open spec fn has_no_newline(line: Seq<char>) -> bool {
    forall|k: int| 0 <= k < line.len() ==> line[k] != '\n'
}

/// The pieces of `text` between its `'\n'` characters, in order: at least
/// one, none holding a newline, and joined back with `'\n'` they give
/// `text`.
fn split_on_newline(text: &str) -> (r: Vec<String>)
    ensures
        r@.len() >= 1,
        join_seq(doc_view(r@)) == text@,
        forall|i: int| 0 <= i < r@.len() ==> has_no_newline(#[trigger] r@[i]@),
{
    broadcast use vstd::string::group_string_axioms;

    let n = text.unicode_len();
    let mut pieces: Vec<String> = Vec::new();
    let mut start: usize = 0;
    let mut i: usize = 0;
    let mut chars = text.chars();
    loop
        invariant
            n == text@.len(),
            start <= i <= n,
            chars.obeys_prophetic_iter_laws(),
            chars.remaining() == text@.subrange(i as int, n as int),
            forall|k: int| start <= k < i ==> text@[k] != '\n',
            forall|j: int| 0 <= j < pieces@.len() ==> has_no_newline(#[trigger] pieces@[j]@),
            pieces@.len() == 0 ==> start == 0,
            pieces@.len() > 0 ==> start >= 1 && text@[start - 1] == '\n' && join_seq(
                doc_view(pieces@),
            ) == text@.subrange(0, start - 1),
        ensures
            i == n,
            start <= n,
            forall|k: int| start <= k < n ==> text@[k] != '\n',
            forall|j: int| 0 <= j < pieces@.len() ==> has_no_newline(#[trigger] pieces@[j]@),
            pieces@.len() == 0 ==> start == 0,
            pieces@.len() > 0 ==> start >= 1 && text@[start - 1] == '\n' && join_seq(
                doc_view(pieces@),
            ) == text@.subrange(0, start - 1),
        decreases n - i,
    {
        let ghost before = chars.remaining();
        match chars.next() {
            None => {
                assert(before.len() == 0);
                assert(i == n);
                break;
            },
            Some(c) => {
                assert(before.len() > 0);
                assert(c == text@[i as int]);
                if c == '\n' {
                    let piece = String::from_str(text.substring_char(start, i));
                    let ghost old_pieces = doc_view(pieces@);
                    pieces.push(piece);
                    proof {
                        let np = doc_view(pieces@);
                        assert(np.drop_last() =~= old_pieces);
                        assert(np.last() == text@.subrange(start as int, i as int));
                        if old_pieces.len() == 0 {
                            assert(join_seq(np) == np[0]);
                            assert(np[0] =~= text@.subrange(0, i as int));
                        } else {
                            assert(join_seq(np) =~= text@.subrange(0, i as int));
                        }
                        assert forall|j: int| 0 <= j < pieces@.len() implies has_no_newline(
                            #[trigger] pieces@[j]@,
                        ) by {
                            if j == pieces@.len() - 1 {
                                assert(pieces@[j]@ == text@.subrange(start as int, i as int));
                            }
                        }
                    }
                    start = i + 1;
                }
                i = i + 1;
                assert(chars.remaining() =~= text@.subrange(i as int, n as int));
            },
        }
    }
    assert(i == n);
    let last = String::from_str(text.substring_char(start, n));
    let ghost old_pieces = doc_view(pieces@);
    pieces.push(last);
    proof {
        let np = doc_view(pieces@);
        assert(np.drop_last() =~= old_pieces);
        assert(np.last() == text@.subrange(start as int, n as int));
        if old_pieces.len() == 0 {
            assert(np[0] =~= text@);
        } else {
            assert(join_seq(np) =~= text@);
        }
        assert forall|j: int| 0 <= j < pieces@.len() implies has_no_newline(#[trigger] pieces@[j]@) by {
            if j == pieces@.len() - 1 {
                assert(pieces@[j]@ == text@.subrange(start as int, n as int));
            }
        }
    }
    pieces
}

#[derive(Debug, Clone, PartialEq, Eq)]
pub struct Document {
    pub lines: Vec<String>,
    /// The text ends with a newline after its last line.
    pub final_newline: bool,
}

impl Document {
    /// Splits a text into its lines. The split is the only one: no line
    /// holds a newline, and the final newline is recorded exactly when the
    /// text ends with one.
    pub fn parse(text: &str) -> (r: Self)
        ensures
            document_text(doc_view(r.lines@), r.final_newline) == text@,
            forall|i: int| 0 <= i < r.lines@.len() ==> has_no_newline(#[trigger] r.lines@[i]@),
            r.final_newline == (text@.len() > 0 && text@.last() == '\n'),
            text@.len() == 0 ==> r.lines@.len() == 0,
    {
        let mut lines = split_on_newline(text);
        let ghost pieces = doc_view(lines@);
        let n = lines.len();
        let last_empty = lines[n - 1].as_str().unicode_len() == 0;
        assert(lines@[n - 1]@ == pieces[n - 1]);
        if n == 1 {
            assert(join_seq(pieces) == pieces[0]);
            if last_empty {
                lines.pop();
                assert(doc_view(lines@) =~= Seq::<Seq<char>>::empty());
                return Document { lines, final_newline: false };
            } else {
                assert(has_no_newline(lines@[0]@));
                assert(text@.last() == pieces[0][pieces[0].len() - 1]);
                return Document { lines, final_newline: false };
            }
        }
        assert(join_seq(pieces) == join_seq(pieces.drop_last()) + seq!['\n'] + pieces.last());
        let ghost full = lines@;
        if last_empty {
            lines.pop();
            proof {
                assert(doc_view(lines@) =~= pieces.drop_last());
                assert(pieces.last() =~= Seq::<char>::empty());
                assert(join_seq(pieces) =~= join_seq(pieces.drop_last()) + seq!['\n']);
                assert forall|i: int| 0 <= i < lines@.len() implies has_no_newline(#[trigger] lines@[i]@) by {
                    assert(lines@[i] == full[i]);
                }
            }
            Document { lines, final_newline: true }
        } else {
            proof {
                let l = pieces.last();
                assert(has_no_newline(lines@[n - 1]@));
                assert(text@.last() == l[l.len() - 1]);
            }
            Document { lines, final_newline: false }
        }
    }

    /// The document's text.
    pub fn render(&self) -> (r: String)
        ensures
            r@ == document_text(doc_view(self.lines@), self.final_newline),
    {
        let ghost d = doc_view(self.lines@);
        let mut out = String::new();
        let mut i: usize = 0;
        while i < self.lines.len()
            invariant
                d == doc_view(self.lines@),
                i <= self.lines@.len(),
                out@ == join_seq(d.subrange(0, i as int)),
            decreases self.lines@.len() - i,
        {
            proof {
                reveal_strlit("\n");
            }
            if i > 0 {
                out.append("\n");
            }
            out.append(self.lines[i].as_str());
            proof {
                let s = d.subrange(0, i + 1);
                assert(s.drop_last() =~= d.subrange(0, i as int));
                if i == 0 {
                    assert(out@ =~= s[0]);
                } else {
                    assert(out@ =~= join_seq(s.drop_last()) + seq!['\n'] + s.last());
                }
            }
            i = i + 1;
        }
        assert(d.subrange(0, d.len() as int) =~= d);
        if self.final_newline && self.lines.len() > 0 {
            proof {
                reveal_strlit("\n");
            }
            out.append("\n");
            assert(out@ =~= join_seq(d) + seq!['\n']);
        }
        out
    }
}

} // verus!
