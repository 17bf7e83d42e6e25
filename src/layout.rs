use vstd::prelude::*;
use vstd::string::*;

verus! {

/// Width of every row of the box, decorators included.
pub const BOX_WIDTH: usize = 54;

/// Width of the field between the two decorators of a row.
pub const FIELD_WIDTH: usize = 50;

/// The lines that `textwrap::wrap` makes of `text` at `width` columns.
pub uninterp spec fn wrapped(text: Seq<char>, width: usize) -> Seq<Seq<char>>;

/// Relies on textwrap::wrap with the default options for a width: the
/// lines it returns depend on the text and the width alone.
#[verifier::external_body]
pub(crate) fn wrap_lines(text: &str, width: usize) -> (r: Vec<String>)
    ensures
        r@.map_values(|l: String| l@) == wrapped(text@, width),
{
    textwrap::wrap(text, width).into_iter().map(|l| l.into_owned()).collect()
}

/// `n` copies of `c`.
pub open spec fn repeat(c: char, n: nat) -> Seq<char> {
    Seq::new(n, |_i: int| c)
}

/// `t` centred in `w` columns; when the padding is odd the extra space goes
/// on the right. A text at least `w` wide is left as it is.
pub open spec fn centered(t: Seq<char>, w: nat) -> Seq<char> {
    if t.len() >= w {
        t
    } else {
        let pad = (w - t.len()) as nat;
        repeat(' ', pad / 2) + t + repeat(' ', (pad - pad / 2) as nat)
    }
}

/// `t` padded on the right with spaces to `w` columns; a text at least `w`
/// wide is left as it is.
pub open spec fn left_justified(t: Seq<char>, w: nat) -> Seq<char> {
    if t.len() >= w {
        t
    } else {
        t + repeat(' ', (w - t.len()) as nat)
    }
}

/// The top and bottom rows: dashes across the whole box.
pub open spec fn border() -> Seq<char> {
    repeat('-', BOX_WIDTH as nat)
}

/// The row holding the title, centred between `\ ` and ` /`.
pub open spec fn title_row(title: Seq<char>) -> Seq<char> {
    seq!['\\', ' '] + centered(title, FIELD_WIDTH as nat) + seq![' ', '/']
}

/// The blank row under the title, between `/ ` and ` \`.
pub open spec fn blank_row() -> Seq<char> {
    seq!['/', ' '] + repeat(' ', FIELD_WIDTH as nat) + seq![' ', '\\']
}

/// Body row number `i`: the line left-justified between decorators that
/// alternate with the parity of `i`, starting with `\ ` and ` /`.
pub open spec fn body_row(line: Seq<char>, i: int) -> Seq<char> {
    if i % 2 == 0 {
        seq!['\\', ' '] + left_justified(line, FIELD_WIDTH as nat) + seq![' ', '/']
    } else {
        seq!['/', ' '] + left_justified(line, FIELD_WIDTH as nat) + seq![' ', '\\']
    }
}

/// The rows above the body: the top border, the title row and the blank row.
pub open spec fn header_rows(title: Seq<char>) -> Seq<Seq<char>> {
    seq![border(), title_row(title), blank_row()]
}

/// The body rows for the first `n` lines.
pub open spec fn body_rows(lines: Seq<Seq<char>>, n: nat) -> Seq<Seq<char>> {
    Seq::new(n, |i: int| body_row(lines[i], i))
}

/// Every row of the box, top to bottom.
pub open spec fn box_rows(title: Seq<char>, lines: Seq<Seq<char>>) -> Seq<Seq<char>> {
    header_rows(title) + body_rows(lines, lines.len()) + seq![border()]
}

/// Rows joined by newlines, with none after the last row.
pub open spec fn joined(rows: Seq<Seq<char>>) -> Seq<char>
    decreases rows.len(),
{
    if rows.len() == 0 {
        Seq::empty()
    } else if rows.len() == 1 {
        rows[0]
    } else {
        joined(rows.drop_last()) + seq!['\n'] + rows.last()
    }
}

/// The boxed text for a title and the lines of its message.
pub open spec fn box_text(title: Seq<char>, lines: Seq<Seq<char>>) -> Seq<char> {
    joined(box_rows(title, lines))
}

/// `t` holds no newline.
pub open spec fn single_line(t: Seq<char>) -> bool {
    forall|j: int| 0 <= j < t.len() ==> t[j] != '\n'
}

/// Joining rows of `BOX_WIDTH` characters puts character `j` of row `k` at
/// `(BOX_WIDTH + 1) * k + j`, and a newline after every row but the last.
proof fn lemma_joined_fixed_width(rows: Seq<Seq<char>>)
    requires
        rows.len() >= 1,
        forall|k: int| 0 <= k < rows.len() ==> #[trigger] rows[k].len() == 54,
    ensures
        joined(rows).len() == 55 * rows.len() - 1,
        forall|k: int, j: int|
            0 <= k < rows.len() && 0 <= j < 54 ==> joined(rows)[55 * k + j] == #[trigger] rows[k][j],
        forall|k: int| 0 <= k < rows.len() - 1 ==> #[trigger] joined(rows)[55 * k + 54] == '\n',
    decreases rows.len(),
{
    if rows.len() > 1 {
        let init = rows.drop_last();
        let n = rows.len() as int;
        assert forall|k: int| 0 <= k < init.len() implies #[trigger] init[k].len() == 54 by {
            assert(init[k] == rows[k]);
        }
        lemma_joined_fixed_width(init);
        let t = joined(rows);
        assert(t == joined(init) + seq!['\n'] + rows.last());
        assert forall|k: int, j: int| 0 <= k < rows.len() && 0 <= j < 54 implies t[55 * k + j] == #[trigger] rows[k][j] by {
            if k < n - 1 {
                assert(init[k] == rows[k]);
                assert(joined(init)[55 * k + j] == init[k][j]);
            }
        }
        assert forall|k: int| 0 <= k < rows.len() - 1 implies #[trigger] joined(rows)[55 * k + 54] == '\n' by {
            if k < n - 2 {
                assert(init[k] == rows[k]);
                assert(joined(init)[55 * k + 54] == '\n');
            } else {
                assert(55 * k + 54 == joined(init).len());
            }
        }
    }
}

/// When the title and every line fit the field and hold no newline, the boxed
/// text is made of rows of exactly `BOX_WIDTH` characters, each but the last
/// followed by a newline, with no other newline. The first and last rows are
/// dashes, and the body rows alternate their decorators, starting with `\ `
/// and ` /` on the first line.
pub proof fn lemma_box_fixed_width(title: Seq<char>, lines: Seq<Seq<char>>)
    requires
        title.len() <= FIELD_WIDTH,
        single_line(title),
        forall|i: int| 0 <= i < lines.len() ==> #[trigger] lines[i].len() <= FIELD_WIDTH && single_line(lines[i]),
    ensures
        ({
            let rows = box_rows(title, lines);
            let text = box_text(title, lines);
            &&& rows.len() == lines.len() + 4
            &&& text.len() == (BOX_WIDTH + 1) * rows.len() - 1
            &&& forall|k: int| 0 <= k < rows.len() ==> (#[trigger] rows[k]).len() == BOX_WIDTH
            &&& forall|k: int, j: int|
                0 <= k < rows.len() && 0 <= j < BOX_WIDTH ==> text[(BOX_WIDTH + 1) * k + j] == #[trigger] rows[k][j]
                    && rows[k][j] != '\n'
            &&& forall|k: int| 0 <= k < rows.len() - 1 ==> #[trigger] text[(BOX_WIDTH + 1) * k + BOX_WIDTH] == '\n'
            &&& rows[0] == border()
            &&& rows[rows.len() - 1] == border()
            &&& forall|i: int| 0 <= i < lines.len() ==> {
                &&& (#[trigger] rows[3 + i]).subrange(0, 2) == if i % 2 == 0 { seq!['\\', ' '] } else { seq!['/', ' '] }
                &&& rows[3 + i].subrange(52, 54) == if i % 2 == 0 { seq![' ', '/'] } else { seq![' ', '\\'] }
            }
        }),
{
    let rows = box_rows(title, lines);
    let h = header_rows(title);
    let b = body_rows(lines, lines.len());
    assert(rows.len() == lines.len() + 4);
    assert(rows[0] == border());
    assert(rows[1] == title_row(title));
    assert(rows[2] == blank_row());
    assert(rows[rows.len() - 1] == border());
    assert forall|i: int| 0 <= i < lines.len() implies #[trigger] rows[3 + i] == body_row(lines[i], i) by {
        assert(rows[3 + i] == b[i]);
    }
    assert forall|k: int| 0 <= k < rows.len() implies (#[trigger] rows[k]).len() == 54 && single_line(rows[k]) by {
        if k == 1 {
            let c = centered(title, FIELD_WIDTH as nat);
            assert(c.len() == 50);
            assert forall|j: int| 0 <= j < c.len() implies c[j] != '\n' by {
                if title.len() < 50 {
                    let pad = (50 - title.len()) as nat;
                    assert(c == repeat(' ', pad / 2) + title + repeat(' ', (pad - pad / 2) as nat));
                    if j >= pad / 2 && j < pad / 2 + title.len() {
                        assert(c[j] == title[j - pad / 2]);
                    }
                }
            }
        } else if 3 <= k < rows.len() - 1 {
            let i = k - 3;
            assert(rows[k] == rows[3 + i]);
            let line = lines[i];
            let l = left_justified(line, FIELD_WIDTH as nat);
            assert(l.len() == 50);
            assert forall|j: int| 0 <= j < l.len() implies l[j] != '\n' by {
                if j < line.len() {
                    assert(l[j] == line[j]);
                }
            }
        }
    }
    assert forall|i: int| 0 <= i < lines.len() implies {
        &&& (#[trigger] rows[3 + i]).subrange(0, 2) == if i % 2 == 0 { seq!['\\', ' '] } else { seq!['/', ' '] }
        &&& rows[3 + i].subrange(52, 54) == if i % 2 == 0 { seq![' ', '/'] } else { seq![' ', '\\'] }
    } by {
        let l = left_justified(lines[i], FIELD_WIDTH as nat);
        assert(l.len() == 50);
        if i % 2 == 0 {
            assert(rows[3 + i].subrange(0, 2) =~= seq!['\\', ' ']);
            assert(rows[3 + i].subrange(52, 54) =~= seq![' ', '/']);
        } else {
            assert(rows[3 + i].subrange(0, 2) =~= seq!['/', ' ']);
            assert(rows[3 + i].subrange(52, 54) =~= seq![' ', '\\']);
        }
    }
    lemma_joined_fixed_width(rows);
}

/// Append `n` copies of the one character of `unit`.
fn push_repeated(s: &mut String, unit: &str, n: usize)
    requires
        unit@.len() == 1,
    ensures
        final(s)@ == old(s)@ + repeat(unit@[0], n as nat),
{
    let mut i: usize = 0;
    while i < n
        invariant
            i <= n,
            unit@.len() == 1,
            s@ == old(s)@ + repeat(unit@[0], i as nat),
        decreases n - i,
    {
        s.append(unit);
        i = i + 1;
        assert(s@ =~= old(s)@ + repeat(unit@[0], i as nat));
    }
}

/// Append `t` centred in the field.
fn push_centered(s: &mut String, t: &str)
    ensures
        final(s)@ == old(s)@ + centered(t@, FIELD_WIDTH as nat),
{
    let len = t.unicode_len();
    if len >= FIELD_WIDTH {
        s.append(t);
    } else {
        let pad = FIELD_WIDTH - len;
        proof { reveal_strlit(" "); }
        push_repeated(s, " ", pad / 2);
        s.append(t);
        push_repeated(s, " ", pad - pad / 2);
        assert(s@ =~= old(s)@ + centered(t@, FIELD_WIDTH as nat));
    }
}

/// Append `t` left-justified in the field.
fn push_left_justified(s: &mut String, t: &str)
    ensures
        final(s)@ == old(s)@ + left_justified(t@, FIELD_WIDTH as nat),
{
    let len = t.unicode_len();
    s.append(t);
    if len < FIELD_WIDTH {
        proof { reveal_strlit(" "); }
        push_repeated(s, " ", FIELD_WIDTH - len);
    }
    assert(s@ =~= old(s)@ + left_justified(t@, FIELD_WIDTH as nat));
}

/// Appending a row to non-empty rows appends a newline and the row to their text.
proof fn lemma_joined_push(rows: Seq<Seq<char>>, row: Seq<char>)
    requires
        rows.len() >= 1,
    ensures
        joined(rows.push(row)) == joined(rows) + seq!['\n'] + row,
{
    assert(rows.push(row).drop_last() =~= rows);
}

/// The boxed text for `title` and the wrapped `lines` of a message: a top
/// border, the title row, a blank row, one row per line with alternating
/// decorators, and a bottom border, joined by newlines.
pub fn render_box(title: &str, lines: &Vec<String>) -> (r: String)
    ensures
        r@ == box_text(title@, lines@.map_values(|l: String| l@)),
{
    let ghost ls = lines@.map_values(|l: String| l@);
    let mut out = String::new();
    proof {
        reveal_strlit("-");
        reveal_strlit("\n");
        reveal_strlit("\\ ");
        reveal_strlit(" /");
        reveal_strlit("/ ");
        reveal_strlit(" \\");
        reveal_strlit(" ");
    }
    push_repeated(&mut out, "-", BOX_WIDTH);
    out.append("\n");
    out.append("\\ ");
    push_centered(&mut out, title);
    out.append(" /");
    out.append("\n");
    out.append("/ ");
    push_repeated(&mut out, " ", FIELD_WIDTH);
    out.append(" \\");
    proof {
        let h = header_rows(title@);
        assert(seq![border(), title_row(title@)] =~= seq![border()].push(title_row(title@)));
        assert(h =~= seq![border(), title_row(title@)].push(blank_row()));
        lemma_joined_push(seq![border()], title_row(title@));
        lemma_joined_push(seq![border(), title_row(title@)], blank_row());
        assert(out@ =~= joined(h));
        assert(h + body_rows(ls, 0) =~= h);
    }
    let mut i: usize = 0;
    while i < lines.len()
        invariant
            i <= lines.len(),
            ls == lines@.map_values(|l: String| l@),
            out@ == joined(header_rows(title@) + body_rows(ls, i as nat)),
        decreases lines.len() - i,
    {
        let ghost before = header_rows(title@) + body_rows(ls, i as nat);
        proof {
            reveal_strlit("\n");
            reveal_strlit("\\ ");
            reveal_strlit(" /");
            reveal_strlit("/ ");
            reveal_strlit(" \\");
        }
        out.append("\n");
        if i % 2 == 0 {
            out.append("\\ ");
            push_left_justified(&mut out, lines[i].as_str());
            out.append(" /");
        } else {
            out.append("/ ");
            push_left_justified(&mut out, lines[i].as_str());
            out.append(" \\");
        }
        proof {
            assert(ls[i as int] == lines@[i as int]@);
            assert(header_rows(title@) + body_rows(ls, (i + 1) as nat) =~= before.push(
                body_row(ls[i as int], i as int),
            ));
            lemma_joined_push(before, body_row(ls[i as int], i as int));
            assert(out@ =~= joined(before) + seq!['\n'] + body_row(ls[i as int], i as int));
        }
        i = i + 1;
    }
    proof {
        reveal_strlit("-");
        reveal_strlit("\n");
    }
    out.append("\n");
    push_repeated(&mut out, "-", BOX_WIDTH);
    proof {
        let all = header_rows(title@) + body_rows(ls, ls.len());
        assert(box_rows(title@, ls) =~= all.push(border()));
        lemma_joined_push(all, border());
    }
    out
}

} // verus!
