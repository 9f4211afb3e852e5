//! The tokens of a table: how a table is written as tokens, how tokens are
//! read as a table, and the proof that the two are inverse to each other.

use crate::token::TokenView;
use vstd::prelude::*;

verus! {

/// The tokens of one cell.
pub type CellView = Seq<TokenView>;

/// The cells of one row.
pub type RowView = Seq<CellView>;

/// The rows of a table, the header first.
pub type ContentView = Seq<RowView>;

/// Whether a token may stand inside a cell: every token that does not frame
/// a row or a cell or end the table.
pub open spec fn is_content(token: TokenView) -> bool {
    token is TableStart || token is Text || token is Other
}

/// A cell holds content only.
pub open spec fn cell_wf(cell: CellView) -> bool {
    forall|k: int| 0 <= k < cell.len() ==> is_content(#[trigger] cell[k])
}

/// Each cell of the row holds content only.
pub open spec fn row_wf(row: RowView) -> bool {
    forall|c: int| 0 <= c < row.len() ==> cell_wf(#[trigger] row[c])
}

/// Each cell of each row holds content only.
pub open spec fn rows_wf(rows: ContentView) -> bool {
    forall|r: int| 0 <= r < rows.len() ==> row_wf(#[trigger] rows[r])
}

/// A table has its header row, and its cells hold content only.
pub open spec fn content_wf(content: ContentView) -> bool {
    content.len() >= 1 && rows_wf(content)
}

/// A cell between its two frame tokens.
pub open spec fn cell_tokens(cell: CellView) -> Seq<TokenView> {
    seq![TokenView::CellStart] + cell + seq![TokenView::CellEnd]
}

/// The cells of a row, one after the other.
pub open spec fn cells_tokens(cells: RowView) -> Seq<TokenView>
    decreases cells.len(),
{
    if cells.len() == 0 {
        Seq::empty()
    } else {
        cells_tokens(cells.drop_last()) + cell_tokens(cells.last())
    }
}

/// The header row between its two frame tokens.
pub open spec fn head_tokens(cells: RowView) -> Seq<TokenView> {
    seq![TokenView::HeadStart] + cells_tokens(cells) + seq![TokenView::HeadEnd]
}

/// A data row between its two frame tokens.
pub open spec fn row_tokens(cells: RowView) -> Seq<TokenView> {
    seq![TokenView::RowStart] + cells_tokens(cells) + seq![TokenView::RowEnd]
}

/// Data rows, one after the other.
pub open spec fn rows_tokens(rows: ContentView) -> Seq<TokenView>
    decreases rows.len(),
{
    if rows.len() == 0 {
        Seq::empty()
    } else {
        rows_tokens(rows.drop_last()) + row_tokens(rows.last())
    }
}

/// The rows that are complete: the header, then the data rows.
pub open spec fn closed_tokens(content: ContentView) -> Seq<TokenView> {
    if content.len() == 0 {
        Seq::empty()
    } else {
        head_tokens(content[0]) + rows_tokens(content.skip(1))
    }
}

/// What follows the start of a table: the header, the data rows, the end of
/// the table.
pub open spec fn body_tokens(content: ContentView) -> Seq<TokenView> {
    closed_tokens(content) + seq![TokenView::TableEnd]
}

/// Whether `tokens` are the tokens that follow the start of the well-formed
/// table of rows `content`, and then `rest`.
pub open spec fn is_table_then(
    tokens: Seq<TokenView>,
    content: ContentView,
    rest: Seq<TokenView>,
) -> bool {
    content_wf(content) && tokens == body_tokens(content) + rest
}

/// Where the reading of a table stands: between rows, in a row between
/// cells, or in a cell; with what has been read so far.
pub enum Extraction {
    Table { content: ContentView },
    Row { content: ContentView, row: RowView },
    Cell { content: ContentView, row: RowView, cell: CellView },
}

/// The token that opens the next row after `content`: the first row is the
/// header.
pub open spec fn opens_row(content: ContentView, token: TokenView) -> bool {
    if content.len() == 0 {
        token is HeadStart
    } else {
        token is RowStart
    }
}

/// The token that closes the row after `content`.
pub open spec fn closes_row(content: ContentView, token: TokenView) -> bool {
    if content.len() == 0 {
        token is HeadEnd
    } else {
        token is RowEnd
    }
}

/// Whether `token` ends the table in this state: the table's end, between
/// rows, after the header at least.
pub open spec fn ends_table(state: Extraction, token: TokenView) -> bool {
    state matches Extraction::Table { content } && content.len() >= 1 && token is TableEnd
}

/// The state after one more token, or `None` where the token is out of
/// place.
pub open spec fn step(state: Extraction, token: TokenView) -> Option<Extraction> {
    match state {
        Extraction::Table { content } => if opens_row(content, token) {
            Some(Extraction::Row { content, row: Seq::empty() })
        } else {
            None
        },
        Extraction::Row { content, row } => if token is CellStart {
            Some(Extraction::Cell { content, row, cell: Seq::empty() })
        } else if closes_row(content, token) {
            Some(Extraction::Table { content: content.push(row) })
        } else {
            None
        },
        Extraction::Cell { content, row, cell } => if token is CellEnd {
            Some(Extraction::Row { content, row: row.push(cell) })
        } else if is_content(token) {
            Some(Extraction::Cell { content, row, cell: cell.push(token) })
        } else {
            None
        },
    }
}

/// Reads on from `state` to the end of the table: the rows of the table and
/// the tokens that follow its end, or `None` where a token is out of place or
/// the tokens run out.
pub open spec fn extract_from(state: Extraction, tokens: Seq<TokenView>) -> Option<
    (ContentView, Seq<TokenView>),
>
    decreases tokens.len(),
{
    if tokens.len() == 0 {
        None
    } else if ends_table(state, tokens[0]) {
        Some((state->Table_content, tokens.drop_first()))
    } else {
        match step(state, tokens[0]) {
            Some(next) => extract_from(next, tokens.drop_first()),
            None => None,
        }
    }
}

/// How many tokens the reading from `state` takes: up to the end of the
/// table, or up to the first token that is out of place, that token
/// included, or all of them where they run out.
pub open spec fn taken_from(state: Extraction, tokens: Seq<TokenView>) -> nat
    decreases tokens.len(),
{
    if tokens.len() == 0 {
        0
    } else if ends_table(state, tokens[0]) {
        1
    } else {
        match step(state, tokens[0]) {
            Some(next) => 1 + taken_from(next, tokens.drop_first()),
            None => 1,
        }
    }
}

/// How many of the tokens that follow the start of a table are taken by
/// the reading of that table.
pub open spec fn taken(tokens: Seq<TokenView>) -> nat {
    taken_from(Extraction::Table { content: Seq::empty() }, tokens)
}

/// Reads the tokens that follow the start of a table.
pub open spec fn extract(tokens: Seq<TokenView>) -> Option<(ContentView, Seq<TokenView>)> {
    extract_from(Extraction::Table { content: Seq::empty() }, tokens)
}

/// The state holds content only in its cells.
pub open spec fn state_wf(state: Extraction) -> bool {
    match state {
        Extraction::Table { content } => rows_wf(content),
        Extraction::Row { content, row } => rows_wf(content) && row_wf(row),
        Extraction::Cell { content, row, cell } => rows_wf(content) && row_wf(row) && cell_wf(cell),
    }
}

/// The token that opens the row after `content`.
pub open spec fn row_opener(content: ContentView) -> TokenView {
    if content.len() == 0 {
        TokenView::HeadStart
    } else {
        TokenView::RowStart
    }
}

/// The tokens that lead from the start of a table to `state`.
pub open spec fn consumed(state: Extraction) -> Seq<TokenView> {
    match state {
        Extraction::Table { content } => closed_tokens(content),
        Extraction::Row { content, row } => closed_tokens(content) + seq![row_opener(content)]
            + cells_tokens(row),
        Extraction::Cell { content, row, cell } => closed_tokens(content) + seq![
            row_opener(content),
        ] + cells_tokens(row) + seq![TokenView::CellStart] + cell,
    }
}

/// Cells written one after the other, with one more cell at the end.
pub proof fn lemma_cells_tokens_push(cells: RowView, cell: CellView)
    ensures
        cells_tokens(cells.push(cell)) == cells_tokens(cells) + cell_tokens(cell),
{
    assert(cells.push(cell).drop_last() =~= cells);
}

/// Rows written one after the other, with one more row at the end.
pub proof fn lemma_rows_tokens_push(rows: ContentView, row: RowView)
    ensures
        rows_tokens(rows.push(row)) == rows_tokens(rows) + row_tokens(row),
{
    assert(rows.push(row).drop_last() =~= rows);
}

/// The complete rows, with one more row at the end.
pub proof fn lemma_closed_tokens_push(content: ContentView, row: RowView)
    ensures
        closed_tokens(content.push(row)) == if content.len() == 0 {
            head_tokens(row)
        } else {
            closed_tokens(content) + row_tokens(row)
        },
{
    if content.len() == 0 {
        assert(content.push(row).skip(1) =~= Seq::<RowView>::empty());
        assert(head_tokens(row) + Seq::<TokenView>::empty() =~= head_tokens(row));
    } else {
        assert(content.push(row).skip(1) =~= content.skip(1).push(row));
        lemma_rows_tokens_push(content.skip(1), row);
        assert(head_tokens(content[0]) + (rows_tokens(content.skip(1)) + row_tokens(row))
            =~= head_tokens(content[0]) + rows_tokens(content.skip(1)) + row_tokens(row));
    }
}

/// A step keeps the state well formed and accounts for its token.
pub proof fn lemma_step(state: Extraction, token: TokenView)
    requires
        state_wf(state),
        step(state, token) is Some,
    ensures
        state_wf(step(state, token).unwrap()),
        consumed(step(state, token).unwrap()) == consumed(state) + seq![token],
{
    let next = step(state, token).unwrap();
    match state {
        Extraction::Table { content } => {
            assert(consumed(next) =~= consumed(state) + seq![token]);
        },
        Extraction::Row { content, row } => {
            if token is CellStart {
                assert(consumed(next) =~= consumed(state) + seq![token]);
            } else {
                lemma_closed_tokens_push(content, row);
                assert(consumed(next) =~= consumed(state) + seq![token]);
            }
        },
        Extraction::Cell { content, row, cell } => {
            if token is CellEnd {
                lemma_cells_tokens_push(row, cell);
                assert(consumed(next) =~= consumed(state) + seq![token]);
            } else {
                assert(consumed(next) =~= consumed(state) + seq![token]);
            }
        },
    }
}

/// What is read from a state is a well-formed table, and the tokens that led
/// to the state and those that were given are the table's tokens and the
/// rest.
pub proof fn lemma_extract_from_sound(state: Extraction, tokens: Seq<TokenView>)
    requires
        state_wf(state),
        extract_from(state, tokens) is Some,
    ensures
        content_wf(extract_from(state, tokens).unwrap().0),
        consumed(state) + tokens == body_tokens(extract_from(state, tokens).unwrap().0)
            + extract_from(state, tokens).unwrap().1,
    decreases tokens.len(),
{
    let (content, rest) = extract_from(state, tokens).unwrap();
    assert(tokens =~= seq![tokens[0]] + tokens.drop_first());
    if ends_table(state, tokens[0]) {
        assert(consumed(state) + tokens =~= body_tokens(content) + rest);
    } else {
        let next = step(state, tokens[0]).unwrap();
        lemma_step(state, tokens[0]);
        lemma_extract_from_sound(next, tokens.drop_first());
        assert(consumed(state) + tokens =~= consumed(next) + tokens.drop_first());
    }
}

/// What `extract` reads is a well-formed table, and the tokens it was given
/// are that table's tokens followed by the rest.
pub proof fn lemma_extract_sound(tokens: Seq<TokenView>)
    requires
        extract(tokens) is Some,
    ensures
        is_table_then(tokens, extract(tokens).unwrap().0, extract(tokens).unwrap().1),
{
    let start = Extraction::Table { content: Seq::empty() };
    lemma_extract_from_sound(start, tokens);
    assert(consumed(start) + tokens =~= tokens);
}

/// In a cell, content is read into the cell.
proof fn lemma_read_content(
    content: ContentView,
    row: RowView,
    cell: CellView,
    more: CellView,
    rest: Seq<TokenView>,
)
    requires
        cell_wf(more),
        rest.len() > 0,
    ensures
        extract_from(Extraction::Cell { content, row, cell }, more + rest) == extract_from(
            Extraction::Cell { content, row, cell: cell + more },
            rest,
        ),
    decreases more.len(),
{
    if more.len() == 0 {
        assert(more + rest =~= rest);
        assert(cell + more =~= cell);
    } else {
        let state = Extraction::Cell { content, row, cell };
        assert((more + rest)[0] == more[0]);
        assert(is_content(more[0]));
        assert((more + rest).drop_first() =~= more.drop_first() + rest);
        lemma_read_content(content, row, cell.push(more[0]), more.drop_first(), rest);
        assert(cell.push(more[0]) + more.drop_first() =~= cell + more);
    }
}

/// In a row, the tokens of a cell are read as that cell.
proof fn lemma_read_cell(content: ContentView, row: RowView, cell: CellView, rest: Seq<TokenView>)
    requires
        cell_wf(cell),
    ensures
        extract_from(Extraction::Row { content, row }, cell_tokens(cell) + rest) == extract_from(
            Extraction::Row { content, row: row.push(cell) },
            rest,
        ),
{
    let tokens = cell_tokens(cell) + rest;
    let closing = seq![TokenView::CellEnd] + rest;
    assert(tokens[0] == TokenView::CellStart);
    assert(tokens.drop_first() =~= cell + closing);
    lemma_read_content(content, row, Seq::empty(), cell, closing);
    assert(Seq::<TokenView>::empty() + cell =~= cell);
    assert(closing[0] == TokenView::CellEnd);
    assert(closing.drop_first() =~= rest);
}

/// In a row, the tokens of cells are read as those cells.
proof fn lemma_read_cells(content: ContentView, row: RowView, cells: RowView, rest: Seq<TokenView>)
    requires
        row_wf(cells),
    ensures
        extract_from(Extraction::Row { content, row }, cells_tokens(cells) + rest) == extract_from(
            Extraction::Row { content, row: row + cells },
            rest,
        ),
    decreases cells.len(),
{
    if cells.len() == 0 {
        assert(cells_tokens(cells) + rest =~= rest);
        assert(row + cells =~= row);
    } else {
        let front = cells.drop_last();
        let last = cells.last();
        assert(row_wf(front)) by {
            assert forall|c: int| 0 <= c < front.len() implies cell_wf(#[trigger] front[c]) by {
                assert(front[c] == cells[c]);
            }
        }
        assert(cells_tokens(cells) + rest =~= cells_tokens(front) + (cell_tokens(last) + rest));
        lemma_read_cells(content, row, front, cell_tokens(last) + rest);
        lemma_read_cell(content, row + front, last, rest);
        assert((row + front).push(last) =~= row + cells);
    }
}

/// Between rows, the tokens of a row are read as that row.
proof fn lemma_read_row(content: ContentView, cells: RowView, rest: Seq<TokenView>)
    requires
        row_wf(cells),
    ensures
        extract_from(
            Extraction::Table { content },
            (if content.len() == 0 {
                head_tokens(cells)
            } else {
                row_tokens(cells)
            }) + rest,
        ) == extract_from(Extraction::Table { content: content.push(cells) }, rest),
{
    let written = if content.len() == 0 {
        head_tokens(cells)
    } else {
        row_tokens(cells)
    };
    let closer = if content.len() == 0 {
        TokenView::HeadEnd
    } else {
        TokenView::RowEnd
    };
    let tokens = written + rest;
    let closing = seq![closer] + rest;
    assert(tokens[0] == row_opener(content));
    assert(tokens.drop_first() =~= cells_tokens(cells) + closing);
    lemma_read_cells(content, Seq::empty(), cells, closing);
    assert(Seq::<CellView>::empty() + cells =~= cells);
    assert(closing[0] == closer);
    assert(closing.drop_first() =~= rest);
}

/// After the header, the tokens of data rows are read as those rows.
proof fn lemma_read_rows(content: ContentView, rows: ContentView, rest: Seq<TokenView>)
    requires
        content.len() >= 1,
        rows_wf(rows),
    ensures
        extract_from(Extraction::Table { content }, rows_tokens(rows) + rest) == extract_from(
            Extraction::Table { content: content + rows },
            rest,
        ),
    decreases rows.len(),
{
    if rows.len() == 0 {
        assert(rows_tokens(rows) + rest =~= rest);
        assert(content + rows =~= content);
    } else {
        let front = rows.drop_last();
        let last = rows.last();
        assert(rows_wf(front)) by {
            assert forall|r: int| 0 <= r < front.len() implies row_wf(#[trigger] front[r]) by {
                assert(front[r] == rows[r]);
            }
        }
        assert(rows_tokens(rows) + rest =~= rows_tokens(front) + (row_tokens(last) + rest));
        lemma_read_rows(content, front, row_tokens(last) + rest);
        lemma_read_row(content + front, last, rest);
        assert((content + front).push(last) =~= content + rows);
    }
}

/// The tokens of a well-formed table, followed by anything, are read as that
/// table and what follows: tokens are read as a table in one way only.
pub proof fn lemma_extract_complete(content: ContentView, rest: Seq<TokenView>)
    requires
        content_wf(content),
    ensures
        extract(body_tokens(content) + rest) == Some((content, rest)),
{
    let head = content[0];
    let rows = content.skip(1);
    let ending = seq![TokenView::TableEnd] + rest;
    assert(rows_wf(rows)) by {
        assert forall|r: int| 0 <= r < rows.len() implies row_wf(#[trigger] rows[r]) by {
            assert(rows[r] == content[r + 1]);
        }
    }
    assert(body_tokens(content) + rest =~= head_tokens(head) + (rows_tokens(rows) + ending));
    lemma_read_row(Seq::empty(), head, rows_tokens(rows) + ending);
    let first = Seq::<RowView>::empty().push(head);
    lemma_read_rows(first, rows, ending);
    assert(first + rows =~= content);
    assert(ending[0] == TokenView::TableEnd);
    assert(ending.drop_first() =~= rest);
}

/// What is left after a table is shorter than what was given.
pub proof fn lemma_extract_from_shortens(state: Extraction, tokens: Seq<TokenView>)
    requires
        extract_from(state, tokens) is Some,
    ensures
        extract_from(state, tokens).unwrap().1.len() < tokens.len(),
    decreases tokens.len(),
{
    if !ends_table(state, tokens[0]) {
        lemma_extract_from_shortens(step(state, tokens[0]).unwrap(), tokens.drop_first());
    }
}

/// `extract` finds a table exactly where the tokens begin with the tokens of
/// a well-formed table, and then it finds that table and what follows it.
pub proof fn lemma_extract_exact(tokens: Seq<TokenView>)
    ensures
        match extract(tokens) {
            Some((content, rest)) => is_table_then(tokens, content, rest),
            None => forall|content: ContentView, rest: Seq<TokenView>|
                !is_table_then(tokens, content, rest),
        },
        forall|content: ContentView, rest: Seq<TokenView>| #[trigger]
            is_table_then(tokens, content, rest) ==> extract(tokens) == Some((content, rest)),
{
    if extract(tokens) is Some {
        lemma_extract_sound(tokens);
    }
    assert forall|content: ContentView, rest: Seq<TokenView>| #[trigger]
        is_table_then(tokens, content, rest) implies extract(tokens) == Some((content, rest)) by {
        lemma_extract_complete(content, rest);
    }
}

} // verus!
