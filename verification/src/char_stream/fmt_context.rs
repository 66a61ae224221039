//! Rendering of text with context for error messages.

use vstd::prelude::*;
use vstd::string::StringExecFns;

use crate::UserPosn;

verus! {

/// Provided by types that can supply the lines of a text, so that the
/// context of a span - the lines around it, with the span highlighted -
/// can be rendered for error messages.
///
/// A type implementing this supplies the length and the text of any
/// line it has; [`fmt_context`] then renders the excerpt around a span
/// given by two positions.
pub trait FmtContext<P> {
    /// True when the context has the given 1-based line.
    spec fn spec_has_line(&self, line: usize) -> bool;

    /// The number of columns of the given line.
    spec fn spec_line_length(&self, line: usize) -> usize;

    /// The text of the given line, without its line ending.
    spec fn spec_line_text(&self, line: usize) -> Seq<char>;

    /// Return the length of the specified line.
    fn line_length(&self, line: usize) -> (r: usize)
        requires
            self.spec_has_line(line),
        ensures
            r == self.spec_line_length(line),
    ;

    /// Append the text of the specified line, preserving the column
    /// numbers of its characters so that context markers line up.
    fn fmt_line(&self, f: &mut String, line: usize)
        requires
            self.spec_has_line(line),
        ensures
            final(f)@ == old(f)@ + self.spec_line_text(line),
    ;
}

/// The decimal digit character for `d`.
pub open spec fn spec_digit(d: int) -> char {
    if d == 0 {
        '0'
    } else if d == 1 {
        '1'
    } else if d == 2 {
        '2'
    } else if d == 3 {
        '3'
    } else if d == 4 {
        '4'
    } else if d == 5 {
        '5'
    } else if d == 6 {
        '6'
    } else if d == 7 {
        '7'
    } else if d == 8 {
        '8'
    } else {
        '9'
    }
}

/// The decimal rendering of `n`, most significant digit first.
pub open spec fn spec_decimal(n: int) -> Seq<char>
    decreases n,
{
    if n < 10 {
        seq![spec_digit(n)]
    } else {
        spec_decimal(n / 10).push(spec_digit(n % 10))
    }
}

/// A one-character string slice holding the decimal digit `d`.
fn digit_str(d: usize) -> (r: &'static str)
    requires
        d < 10,
    ensures
        r@ == seq![spec_digit(d as int)],
{
    proof {
        reveal_strlit("0");
        reveal_strlit("1");
        reveal_strlit("2");
        reveal_strlit("3");
        reveal_strlit("4");
        reveal_strlit("5");
        reveal_strlit("6");
        reveal_strlit("7");
        reveal_strlit("8");
        reveal_strlit("9");
    }
    match d {
        0 => "0",
        1 => "1",
        2 => "2",
        3 => "3",
        4 => "4",
        5 => "5",
        6 => "6",
        7 => "7",
        8 => "8",
        _ => "9",
    }
}

/// Render `n` in decimal.
pub fn fmt_usize(n: usize) -> (r: String)
    ensures
        r@ == spec_decimal(n as int),
    decreases n,
{
    if n < 10 {
        digit_str(n).to_owned()
    } else {
        let mut s = fmt_usize(n / 10);
        s.append(digit_str(n % 10));
        s
    }
}

/// `n` copies of the character `c`.
pub open spec fn spec_repeat(c: char, n: int) -> Seq<char>
    decreases n,
{
    if n <= 0 {
        Seq::empty()
    } else {
        spec_repeat(c, n - 1).push(c)
    }
}

/// The empty gutter that aligns unnumbered lines with numbered ones.
pub open spec fn spec_gutter() -> Seq<char> {
    seq![' ', ' ', ' ', ' ', '|', ' ', ' ']
}

/// The marker standing for collapsed middle lines.
pub open spec fn spec_ellipsis_line() -> Seq<char> {
    seq![' ', ' ', ' ', ' ', '|', '.', '.', '.', '\n']
}

/// The gutter of a numbered line: the line number right-aligned to
/// four columns, then the gutter bar.
pub open spec fn spec_line_num_gutter(line: int) -> Seq<char> {
    spec_repeat(' ', 4 - spec_decimal(line).len()) + spec_decimal(line) + seq!['|', ' ', ' ']
}

/// The rendering of a span within a single line: the previous line
/// for context when there is one, the offending line with its number,
/// and a caret line highlighting `num_cols` columns (at least one
/// caret) from the span's start column.
pub open spec fn spec_context_single_line<P: UserPosn, T: FmtContext<P>>(
    ctx: &T,
    start: P,
    num_cols: int,
) -> Seq<char> {
    let line = start.spec_line();
    let prev = if line > 1 {
        spec_gutter() + ctx.spec_line_text((line - 1) as usize) + seq!['\n']
    } else {
        Seq::empty()
    };
    prev + spec_line_num_gutter(line as int) + ctx.spec_line_text(line) + seq!['\n']
        + spec_gutter() + spec_repeat(' ', start.spec_column() - 1) + (if num_cols == 0 {
        seq!['^']
    } else {
        spec_repeat('^', num_cols)
    }) + seq!['\n'] + spec_gutter() + seq!['\n']
}

/// The shape of a multiple-line rendering: the first rendered line,
/// the number of rendered lines, and the skipped index range that is
/// collapsed into the ellipsis marker.
pub open spec fn spec_ml_shape<P: UserPosn>(start: P, end: P) -> (int, int, int, int) {
    let first_line: int = if start.spec_line() > 1 {
        start.spec_line() - 1
    } else {
        start.spec_line() as int
    };
    let last_line: int = end.spec_line() + (if end.spec_column() == 0 {
        0int
    } else {
        1int
    });
    let num_lines: int = if last_line <= first_line {
        1
    } else {
        last_line + 1 - first_line
    };
    let skips: (int, int) = if num_lines > 4 {
        (4, num_lines - 4)
    } else {
        (1, 0)
    };
    (first_line, num_lines, skips.0, skips.1)
}

/// The `i`-th rendered line of a multiple-line rendering: the
/// ellipsis marker at the start of the skipped range, nothing for the
/// rest of it, and otherwise the line's text behind a gutter that
/// numbers exactly the lines inside the span.
pub open spec fn spec_ml_piece<P: UserPosn, T: FmtContext<P>>(
    ctx: &T,
    start: P,
    end: P,
    first_line: int,
    start_skip: int,
    end_skip: int,
    i: int,
) -> Seq<char> {
    if start_skip <= i <= end_skip {
        if i == start_skip {
            spec_ellipsis_line()
        } else {
            Seq::empty()
        }
    } else {
        let l = first_line + i;
        (if start.spec_line() <= l <= end.spec_line() {
            spec_line_num_gutter(l)
        } else {
            spec_gutter()
        }) + ctx.spec_line_text(l as usize) + seq!['\n']
    }
}

/// The concatenation of the rendered lines `i` up to `n`.
pub open spec fn spec_ml_cat<P: UserPosn, T: FmtContext<P>>(
    ctx: &T,
    start: P,
    end: P,
    first_line: int,
    start_skip: int,
    end_skip: int,
    i: int,
    n: int,
) -> Seq<char>
    decreases n - i,
{
    if i >= n {
        Seq::empty()
    } else {
        spec_ml_piece(ctx, start, end, first_line, start_skip, end_skip, i) + spec_ml_cat(
            ctx,
            start,
            end,
            first_line,
            start_skip,
            end_skip,
            i + 1,
            n,
        )
    }
}

proof fn lemma_ml_cat_snoc<P: UserPosn, T: FmtContext<P>>(
    ctx: &T,
    start: P,
    end: P,
    first_line: int,
    start_skip: int,
    end_skip: int,
    j: int,
    i: int,
)
    requires
        j <= i,
    ensures
        spec_ml_cat(ctx, start, end, first_line, start_skip, end_skip, j, i + 1) =~= spec_ml_cat(
            ctx,
            start,
            end,
            first_line,
            start_skip,
            end_skip,
            j,
            i,
        ) + spec_ml_piece(ctx, start, end, first_line, start_skip, end_skip, i),
    decreases i - j,
{
    if j < i {
        lemma_ml_cat_snoc(ctx, start, end, first_line, start_skip, end_skip, j + 1, i);
        assert(spec_ml_cat(ctx, start, end, first_line, start_skip, end_skip, j, i + 1)
            == spec_ml_piece(ctx, start, end, first_line, start_skip, end_skip, j) + spec_ml_cat(
            ctx,
            start,
            end,
            first_line,
            start_skip,
            end_skip,
            j + 1,
            i + 1,
        ));
        assert(spec_ml_cat(ctx, start, end, first_line, start_skip, end_skip, j, i)
            == spec_ml_piece(ctx, start, end, first_line, start_skip, end_skip, j) + spec_ml_cat(
            ctx,
            start,
            end,
            first_line,
            start_skip,
            end_skip,
            j + 1,
            i,
        ));
    } else {
        assert(spec_ml_cat(ctx, start, end, first_line, start_skip, end_skip, j, i + 1)
            == spec_ml_piece(ctx, start, end, first_line, start_skip, end_skip, j) + spec_ml_cat(
            ctx,
            start,
            end,
            first_line,
            start_skip,
            end_skip,
            j + 1,
            i + 1,
        ));
        assert(spec_ml_cat(ctx, start, end, first_line, start_skip, end_skip, j + 1, i + 1)
            =~= Seq::<char>::empty());
        assert(spec_ml_cat(ctx, start, end, first_line, start_skip, end_skip, j, i) =~= Seq::<
            char,
        >::empty());
    }
}

/// The rendering of a span over multiple lines: every line from just
/// before the span to just after it, numbering only the lines inside
/// the span, with the middle collapsed into an ellipsis marker when
/// more than four lines would be rendered.
pub open spec fn spec_context_multiple_lines<P: UserPosn, T: FmtContext<P>>(
    ctx: &T,
    start: P,
    end: P,
) -> Seq<char> {
    let (first_line, num_lines, start_skip, end_skip) = spec_ml_shape(start, end);
    spec_ml_cat(ctx, start, end, first_line, start_skip, end_skip, 0, num_lines)
}

/// True when a span renders as a single line: it lies within one
/// line, or runs exactly to column 0 of the next line.
pub open spec fn spec_single_line(start_line: int, start_col: int, end_line: int, end_col: int) -> bool {
    start_line == end_line || (start_line + 1 == end_line && end_col == 0)
}

/// The rendering of the context of a span: a single-line excerpt with
/// carets when the span lies within one line, and a multiple-line
/// excerpt otherwise.
pub open spec fn spec_context<P: UserPosn, T: FmtContext<P>>(ctx: &T, start: P, end: P) -> Seq<
    char,
> {
    if spec_single_line(
        start.spec_line() as int,
        start.spec_column() as int,
        end.spec_line() as int,
        end.spec_column() as int,
    ) {
        let num_cols: int = if start.spec_line() == end.spec_line() {
            end.spec_column() - start.spec_column()
        } else {
            ctx.spec_line_length(start.spec_line()) as int
        };
        spec_context_single_line(ctx, start, num_cols)
    } else {
        spec_context_multiple_lines(ctx, start, end)
    }
}

/// Append `n` copies of the single character in `piece`.
fn append_repeat(f: &mut String, piece: &str, n: usize)
    requires
        piece@.len() == 1,
    ensures
        final(f)@ == old(f)@ + spec_repeat(piece@[0], n as int),
{
    let mut i: usize = 0;
    while i < n
        invariant
            piece@.len() == 1,
            i <= n,
            f@ == old(f)@ + spec_repeat(piece@[0], i as int),
        decreases n - i,
    {
        f.append(piece);
        proof {
            assert(f@ =~= old(f)@ + spec_repeat(piece@[0], i + 1));
        }
        i += 1;
    }
}

/// Append the gutter that aligns unnumbered lines.
fn append_gutter(f: &mut String)
    ensures
        final(f)@ == old(f)@ + spec_gutter(),
{
    proof {
        reveal_strlit("    |  ");
    }
    f.append("    |  ");
    proof {
        assert(f@ =~= old(f)@ + spec_gutter());
    }
}

/// Append the gutter of a numbered line.
fn append_line_num_gutter(f: &mut String, line: usize)
    ensures
        final(f)@ == old(f)@ + spec_line_num_gutter(line as int),
{
    proof {
        reveal_strlit("   ");
        reveal_strlit("  ");
        reveal_strlit(" ");
        reveal_strlit("|  ");
        reveal_with_fuel(spec_repeat, 5);
        lemma_decimal_len(line as int);
    }
    let digits = fmt_usize(line);
    if line < 10 {
        f.append("   ");
        proof {
            assert(spec_repeat(' ', 4 - spec_decimal(line as int).len()) =~= "   "@);
        }
    } else if line < 100 {
        f.append("  ");
        proof {
            assert(spec_repeat(' ', 4 - spec_decimal(line as int).len()) =~= "  "@);
        }
    } else if line < 1000 {
        f.append(" ");
        proof {
            assert(spec_repeat(' ', 4 - spec_decimal(line as int).len()) =~= " "@);
        }
    } else {
        proof {
            assert(spec_repeat(' ', 4 - spec_decimal(line as int).len()) =~= Seq::<char>::empty());
        }
    }
    f.append(digits.as_str());
    f.append("|  ");
    proof {
        assert(seq!['|', ' ', ' '] =~= "|  "@);
        assert(f@ =~= old(f)@ + spec_line_num_gutter(line as int));
    }
}

/// Append a line ending.
fn append_newline(f: &mut String)
    ensures
        final(f)@ == old(f)@ + seq!['\n'],
{
    proof {
        reveal_strlit("\n");
    }
    f.append("\n");
    proof {
        assert(f@ =~= old(f)@ + seq!['\n']);
    }
}

/// Render a span lying within a single line: the previous line for
/// context when there is one, the offending line with its number, and
/// a gutter-aligned caret line highlighting `num_cols` columns (at
/// least one caret) from the span's start column.
#[verifier::rlimit(100)]
#[verifier::spinoff_prover]
pub fn fmt_context_single_line<P: UserPosn, T: FmtContext<P>>(
    ctx: &T,
    f: &mut String,
    start: &P,
    num_cols: usize,
)
    requires
        ctx.spec_has_line(start.spec_line()),
        start.spec_line() > 1 ==> ctx.spec_has_line((start.spec_line() - 1) as usize),
    ensures
        final(f)@ == old(f)@ + spec_context_single_line(ctx, *start, num_cols as int),
{
    proof {
        reveal_strlit(" ");
        reveal_strlit("^");
    }
    let line = start.line();
    let first_col = start.column();
    if line > 1 {
        append_gutter(f);
        ctx.fmt_line(f, line - 1);
        append_newline(f);
    }
    append_line_num_gutter(f, line);
    ctx.fmt_line(f, line);
    append_newline(f);
    append_gutter(f);
    if first_col >= 1 {
        append_repeat(f, " ", first_col - 1);
    } else {
        proof {
            assert(spec_repeat(' ', first_col - 1) =~= Seq::<char>::empty());
        }
    }
    if num_cols == 0 {
        f.append("^");
        proof {
            assert("^"@ =~= seq!['^']);
        }
    } else {
        append_repeat(f, "^", num_cols);
    }
    append_newline(f);
    append_gutter(f);
    append_newline(f);
    proof {
        assert(f@ =~= old(f)@ + spec_context_single_line(ctx, *start, num_cols as int));
    }
}

/// Render a span over multiple lines: every line from just before the
/// span to just after it, numbering only the lines inside the span,
/// and collapsing the middle into an ellipsis marker when more than
/// four lines would be rendered - this bounds the output size
/// whatever the size of the offending span.
pub fn fmt_context_multiple_lines<P: UserPosn, T: FmtContext<P>>(
    ctx: &T,
    f: &mut String,
    start: &P,
    end: &P,
)
    requires
        start.spec_line() <= end.spec_line(),
        end.spec_line() + 2 <= usize::MAX,
        ({
            let (first_line, num_lines, start_skip, end_skip) = spec_ml_shape(*start, *end);
            forall|i: int|
                0 <= i < num_lines && !(start_skip <= i <= end_skip) ==> ctx.spec_has_line(
                    #[trigger] ((first_line + i) as usize),
                )
        }),
    ensures
        final(f)@ == old(f)@ + spec_context_multiple_lines(ctx, *start, *end),
{
    let start_line = start.line();
    let end_line = end.line();
    let end_col = end.column();
    let first_line: usize = if start_line > 1 {
        start_line - 1
    } else {
        start_line
    };
    let last_line: usize = if end_col == 0 {
        end_line
    } else {
        end_line + 1
    };
    let num_lines: usize = if last_line <= first_line {
        1
    } else {
        last_line + 1 - first_line
    };
    let (start_skip, end_skip): (usize, usize) = if num_lines > 4 {
        (4, num_lines - 4)
    } else {
        (1, 0)
    };
    proof {
        let shape = spec_ml_shape(*start, *end);
        assert(shape.0 == first_line as int);
        assert(shape.1 == num_lines as int);
        assert(shape.2 == start_skip as int);
        assert(shape.3 == end_skip as int);
    }
    let mut i: usize = 0;
    while i < num_lines
        invariant
            i <= num_lines,
            spec_ml_shape(*start, *end) == (
                first_line as int,
                num_lines as int,
                start_skip as int,
                end_skip as int,
            ),
            start.spec_line() <= end.spec_line(),
            end.spec_line() + 2 <= usize::MAX,
            start_line == start.spec_line(),
            end_line == end.spec_line(),
            first_line + num_lines <= usize::MAX,
            forall|j: int|
                0 <= j < num_lines as int && !(start_skip as int <= j <= end_skip as int)
                    ==> ctx.spec_has_line(#[trigger] ((first_line + j) as usize)),
            f@ == old(f)@ + spec_ml_cat(
                ctx,
                *start,
                *end,
                first_line as int,
                start_skip as int,
                end_skip as int,
                0,
                i as int,
            ),
        decreases num_lines - i,
    {
        if start_skip <= i && i <= end_skip {
            if i == start_skip {
                proof {
                    reveal_strlit("    |...\n");
                }
                f.append("    |...\n");
                proof {
                    assert("    |...\n"@ =~= spec_ellipsis_line());
                }
            }
        } else {
            let l = first_line + i;
            if start_line <= l && l <= end_line {
                append_line_num_gutter(f, l);
            } else {
                append_gutter(f);
            }
            ctx.fmt_line(f, l);
            append_newline(f);
        }
        proof {
            lemma_ml_cat_snoc(
                ctx,
                *start,
                *end,
                first_line as int,
                start_skip as int,
                end_skip as int,
                0,
                i as int,
            );
            assert(f@ =~= old(f)@ + spec_ml_cat(
                ctx,
                *start,
                *end,
                first_line as int,
                start_skip as int,
                end_skip as int,
                0,
                i + 1,
            ));
        }
        i += 1;
    }
}

/// Render the context of a span between two positions: a single-line
/// excerpt with carets when the span lies within one line (or runs
/// exactly to column 0 of the next line), and a multiple-line excerpt
/// otherwise.  This is the entry point for clients rendering an error.
pub fn fmt_context<P: UserPosn, T: FmtContext<P>>(ctx: &T, f: &mut String, start: &P, end: &P)
    requires
        start.spec_line() <= end.spec_line(),
        start.spec_line() == end.spec_line() ==> start.spec_column() <= end.spec_column(),
        end.spec_line() + 2 <= usize::MAX,
        spec_single_line(
            start.spec_line() as int,
            start.spec_column() as int,
            end.spec_line() as int,
            end.spec_column() as int,
        ) ==> ctx.spec_has_line(start.spec_line()) && (start.spec_line() > 1
            ==> ctx.spec_has_line((start.spec_line() - 1) as usize)),
        !spec_single_line(
            start.spec_line() as int,
            start.spec_column() as int,
            end.spec_line() as int,
            end.spec_column() as int,
        ) ==> ({
            let (first_line, num_lines, start_skip, end_skip) = spec_ml_shape(*start, *end);
            forall|i: int|
                0 <= i < num_lines && !(start_skip <= i <= end_skip) ==> ctx.spec_has_line(
                    #[trigger] ((first_line + i) as usize),
                )
        }),
    ensures
        final(f)@ == old(f)@ + spec_context(ctx, *start, *end),
{
    let start_line = start.line();
    let end_line = end.line();
    let end_col = end.column();
    if start_line == end_line || (start_line + 1 == end_line && end_col == 0) {
        let num_cols: usize = if start_line == end_line {
            end.column() - start.column()
        } else {
            ctx.line_length(start_line)
        };
        fmt_context_single_line(ctx, f, start, num_cols);
    } else {
        fmt_context_multiple_lines(ctx, f, start, end);
    }
}

/// The decimal rendering of small numbers is short: one digit below
/// 10, and one more digit for each factor of 10.
proof fn lemma_decimal_len(n: int)
    requires
        n >= 0,
    ensures
        n < 10 ==> spec_decimal(n).len() == 1,
        10 <= n < 100 ==> spec_decimal(n).len() == 2,
        100 <= n < 1000 ==> spec_decimal(n).len() == 3,
        1000 <= n ==> spec_decimal(n).len() >= 4,
    decreases n,
{
    if n >= 10 {
        lemma_decimal_len(n / 10);
        if n >= 10000 {
            lemma_decimal_len_ge(n);
        }
    }
}

proof fn lemma_decimal_len_ge(n: int)
    requires
        n >= 0,
    ensures
        spec_decimal(n).len() >= 1,
    decreases n,
{
    if n >= 10 {
        lemma_decimal_len_ge(n / 10);
    }
}

} // verus!
