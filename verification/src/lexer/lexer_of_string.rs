//! A lexer owning its text, with line-aware error-context rendering.

use core::marker::PhantomData;

use vstd::prelude::*;
use vstd::string::StringSliceAdditionalSpecFns;
use vstd::string::StrSliceExecFns;
use vstd::string::StringExecFns;

use crate::char_stream::{
    char_at_ofs, char_index_of, char_len_utf8, lemma_boundary_end, lemma_boundary_step,
    lemma_boundary_zero, FmtContext,
};
use crate::{LexerOfStr, PosnInCharStream};

verus! {

/// True when `starts` and `ncols` index the lines of `chars`: entry
/// `l` (counted from 1; entry 0 is a placeholder) gives the character
/// index where line `l` starts and the number of characters in it,
/// each line runs up to a newline or the end of the text, and the
/// lines cover the whole text in order.
pub open spec fn lines_wf(chars: Seq<char>, starts: Seq<usize>, ncols: Seq<usize>) -> bool {
    &&& starts.len() == ncols.len()
    &&& starts.len() >= 2
    &&& starts[1] == 0
    &&& forall|l: int| 1 <= l < starts.len() ==> #[trigger] starts[l] + ncols[l] <= chars.len()
    &&& forall|l: int, k: int|
        #![trigger starts[l], chars[k]]
        1 <= l < starts.len() && starts[l] <= k < starts[l] + ncols[l] ==> chars[k] != '\n'
    &&& forall|l: int|
        1 <= l < starts.len() - 1 ==> chars[#[trigger] (starts[l] + ncols[l])] == '\n'
            && starts[l + 1] == starts[l] + ncols[l] + 1
    &&& starts.last() + ncols.last() == chars.len()
}

/// Find, for every line of `text`, the character index where it
/// starts and the number of characters it holds.  Entry 0 of each
/// vector is a placeholder, so that line `l` is at index `l`.
fn compute_lines(text: &str) -> (r: (Vec<usize>, Vec<usize>))
    ensures
        lines_wf(text@, r.0@, r.1@),
{
    let mut starts: Vec<usize> = Vec::new();
    let mut ncols: Vec<usize> = Vec::new();
    starts.push(0);
    starts.push(0);
    ncols.push(0);
    let mut ofs: usize = 0;
    let mut ci: usize = 0;
    let mut line_start: usize = 0;
    let bytes = text.as_bytes();
    proof {
        lemma_boundary_zero(text);
        vstd::slice::axiom_spec_len::<u8>(bytes);
        crate::char_stream::lemma_chars_le_bytes(text);
    }
    loop
        invariant
            text.spec_bytes().len() <= usize::MAX,
            text@.len() <= text.spec_bytes().len(),
            crate::char_stream::is_boundary(text, ofs as int),
            ci == char_index_of(text, ofs as int),
            ci <= text@.len(),
            line_start <= ci,
            starts@.len() == ncols@.len() + 1,
            starts@.len() >= 2,
            starts@[1] == 0,
            starts@.last() == line_start,
            forall|l: int|
                1 <= l < ncols@.len() ==> #[trigger] starts@[l] + ncols@[l] <= text@.len(),
            forall|l: int, k: int|
                #![trigger starts@[l], text@[k]]
                1 <= l < ncols@.len() && starts@[l] <= k < starts@[l] + ncols@[l] ==> text@[k]
                    != '\n',
            forall|l: int|
                1 <= l < ncols@.len() ==> text@[#[trigger] (starts@[l] + ncols@[l])] == '\n'
                    && starts@[l + 1] == starts@[l] + ncols@[l] + 1,
            forall|k: int| line_start <= k < ci ==> #[trigger] text@[k] != '\n',
        decreases text.spec_bytes().len() - ofs,
    {
        proof {
            crate::char_stream::lemma_boundary_bounds(text, ofs as int);
        }
        match char_at_ofs(text, ofs) {
            None => {
                proof {
                    lemma_boundary_end(text);
                }
                ncols.push(ci - line_start);
                proof {
                    assert(lines_wf(text@, starts@, ncols@));
                }
                return (starts, ncols);
            },
            Some(c) => {
                proof {
                    lemma_boundary_step(text, ofs as int);
                    crate::char_stream::lemma_chars_le_bytes(text);
                }
                if c == '\n' {
                    ncols.push(ci - line_start);
                    starts.push(ci + 1);
                    line_start = ci + 1;
                }
                ofs = ofs + char_len_utf8(c);
                ci = ci + 1;
            },
        }
    }
}

/// A lexer that owns its text as a [`String`] and tracks the lines
/// within it.  It hands out a [`LexerOfStr`] borrowing the text for
/// parsing, and it implements [`FmtContext`], so that an error found
/// while parsing can be rendered with the text around it.
///
/// The text can be replaced before a new parse, and taken back out for
/// later processing stages.
#[verifier::reject_recursive_types(P)]
#[verifier::reject_recursive_types(T)]
#[verifier::reject_recursive_types(E)]
pub struct LexerOfString<P, T, E>
    where P: PosnInCharStream,
{
    text: String,
    starts: Vec<usize>,
    ncols: Vec<usize>,
    _phantom_posn: PhantomData<P>,
    _phantom_token: PhantomData<T>,
    _phantom_error: PhantomData<E>,
}

impl<P, T, E> Default for LexerOfString<P, T, E>
    where P: PosnInCharStream,
{
    /// An empty lexer: no text, one empty line.
    fn default() -> (r: Self)
        ensures
            r.spec_text() == Seq::<char>::empty(),
            r.wf_lines(),
    {
        let text = String::new();
        let (starts, ncols) = compute_lines(text.as_str());
        Self {
            text,
            starts,
            ncols,
            _phantom_posn: PhantomData,
            _phantom_token: PhantomData,
            _phantom_error: PhantomData,
        }
    }
}

impl<P, T, E> LexerOfString<P, T, E>
    where P: PosnInCharStream,
{
    /// The characters of the owned text.
    pub closed spec fn spec_text(&self) -> Seq<char> {
        self.text@
    }

    /// True when the tracked lines index the owned text; every
    /// constructor establishes this.
    pub closed spec fn wf_lines(&self) -> bool {
        lines_wf(self.text@, self.starts@, self.ncols@)
    }

    /// The number of lines of the text.
    pub closed spec fn spec_num_lines(&self) -> int {
        self.starts@.len() - 1
    }

    /// A well-formed lexer has at least one line.
    pub proof fn lemma_lines(&self)
        requires
            self.wf_lines(),
        ensures
            self.spec_num_lines() >= 1,
    {
    }

    /// Set the text, replacing any the lexer held.
    pub fn set_text(self, text: String) -> (r: Self)
        ensures
            r.spec_text() == text@,
            r.wf_lines(),
    {
        let (starts, ncols) = compute_lines(text.as_str());
        Self {
            text,
            starts,
            ncols,
            _phantom_posn: PhantomData,
            _phantom_token: PhantomData,
            _phantom_error: PhantomData,
        }
    }

    /// Take the text out of the lexer, leaving it empty.
    pub fn take_text(&mut self) -> (r: String)
        ensures
            r@ == old(self).spec_text(),
            final(self).spec_text() == Seq::<char>::empty(),
            final(self).wf_lines(),
    {
        let r = self.text.clone();
        self.text = String::new();
        let (starts, ncols) = compute_lines(self.text.as_str());
        self.starts = starts;
        self.ncols = ncols;
        r
    }

    /// Get the text content.
    pub fn text(&self) -> (r: &str)
        ensures
            r@ == self.spec_text(),
    {
        self.text.as_str()
    }

    /// The character index at which the given line starts.
    pub closed spec fn spec_line_start(&self, line: int) -> int {
        self.starts@[line] as int
    }

    /// The number of characters in the given line.
    pub closed spec fn spec_line_cols(&self, line: int) -> int {
        self.ncols@[line] as int
    }

    /// The line table exposed through [`FmtContext`] reads the owned
    /// text: each line the lexer has is a well-bounded slice of the
    /// text, of the recorded length, at the recorded start.
    pub proof fn lemma_line_table(&self, line: usize)
        requires
            self.wf_lines(),
            1 <= line <= self.spec_num_lines(),
        ensures
            self.spec_has_line(line),
            self.spec_line_text(line) == self.spec_text().subrange(
                self.spec_line_start(line as int),
                self.spec_line_start(line as int) + self.spec_line_cols(line as int),
            ),
            self.spec_line_length(line) == self.spec_line_cols(line as int),
            0 <= self.spec_line_start(line as int),
            self.spec_line_start(line as int) + self.spec_line_cols(line as int)
                <= self.spec_text().len(),
    {
    }

    /// Create a [`LexerOfStr`] that will parse the text.
    pub fn lexer<'a>(&'a self) -> (r: LexerOfStr<'a, P, T, E>)
        ensures
            r.wf(),
            r.spec_chars() == self.spec_text(),
    {
        LexerOfStr::new(self.text.as_str())
    }
}

impl<P, T, E> FmtContext<P> for LexerOfString<P, T, E>
    where P: PosnInCharStream,
{
    closed spec fn spec_has_line(&self, line: usize) -> bool {
        &&& self.wf_lines()
        &&& 1 <= line < self.starts@.len()
    }

    closed spec fn spec_line_length(&self, line: usize) -> usize {
        self.ncols@[line as int]
    }

    closed spec fn spec_line_text(&self, line: usize) -> Seq<char> {
        self.text@.subrange(
            self.starts@[line as int] as int,
            self.starts@[line as int] + self.ncols@[line as int],
        )
    }

    fn line_length(&self, line: usize) -> usize {
        self.ncols[line]
    }

    fn fmt_line(&self, f: &mut String, line: usize) {
        let s = self.text.as_str();
        let sb = s.as_bytes();
        proof {
            vstd::slice::axiom_spec_len::<u8>(sb);
            crate::char_stream::lemma_chars_le_bytes(s);
        }
        let from = self.starts[line];
        let to = from + self.ncols[line];
        let piece = s.substring_char(from, to);
        f.append(piece);
    }
}

} // verus!
