//! A table taken out of the token stream: rows of cells of tokens.

use crate::error::RunError;
use crate::grammar::{
    body_tokens, cell_tokens, cell_wf, cells_tokens, closed_tokens, content_wf, extract,
    extract_from, head_tokens, is_table_then, lemma_cells_tokens_push, lemma_closed_tokens_push,
    lemma_extract_exact, row_tokens, row_wf, rows_wf, taken, taken_from, CellView, ContentView,
    Extraction, RowView,
};
use crate::token::{Token, TokenView};
use pulldown_cmark::Alignment;
use std::collections::VecDeque;
use vstd::prelude::*;
use vstd::string::StringExecFns;

verus! {

/// A table: the alignment of its columns and its rows, the header first.
#[derive(Debug)]
pub struct MarkdownTable {
    alignment: Vec<Alignment>,
    content: Vec<Vec<Vec<Token>>>,
}

/// A table as the contracts see it.
pub struct TableView {
    pub alignment: Seq<Alignment>,
    pub content: ContentView,
}

/// A table written as tokens: its start with the alignment, the header, the
/// data rows, its end.
pub open spec fn table_tokens(table: TableView) -> Seq<TokenView> {
    seq![TokenView::TableStart(table.alignment)] + body_tokens(table.content)
}

/// The text `d` alone in a cell marks a roll table.
pub open spec fn marker_cell() -> CellView {
    seq![TokenView::Text(seq!['d'])]
}

/// Whether the rows are those of a roll table: the header's first cell holds
/// the text `d` and nothing else, and each data row begins with an empty
/// cell.
pub open spec fn is_roll_table(content: ContentView) -> bool {
    &&& content.len() >= 1
    &&& content[0].len() >= 1
    &&& content[0][0] == marker_cell()
    &&& forall|r: int|
        1 <= r < content.len() ==> (#[trigger] content[r]).len() >= 1 && content[r][0].len() == 0
}

/// The rows with `label` in place of the first cell of row `r`.
pub open spec fn with_label(content: ContentView, r: int, label: CellView) -> ContentView {
    content.update(r, content[r].update(0, label))
}

/// The rows of a roll table with its labels in the first column: `head` in
/// the header, `rows[i]` in data row `i`.
pub open spec fn labelled(content: ContentView, head: CellView, rows: Seq<CellView>) -> ContentView {
    Seq::new(
        content.len(),
        |r: int|
            if r == 0 {
                content[0].update(0, head)
            } else {
                content[r].update(0, rows[r - 1])
            },
    )
}

/// Where the reading of a table stands, in the code that reads it.
enum Level {
    Table,
    Row,
    Cell,
}

/// The state of the reading that the code's variables stand for.
spec fn reading(
    level: Level,
    content: ContentView,
    row: RowView,
    cell: CellView,
) -> Extraction {
    match level {
        Level::Table => Extraction::Table { content },
        Level::Row => Extraction::Row { content, row },
        Level::Cell => Extraction::Cell { content, row, cell },
    }
}

/// Appends a cell to the tokens, between its two frame tokens.
fn push_cell(tokens: &mut Vec<Token>, cell: Vec<Token>)
    ensures
        final(tokens).deep_view() == old(tokens).deep_view() + cell_tokens(cell.deep_view()),
{
    let ghost before = tokens.deep_view();
    let ghost held = cell.deep_view();
    let mut cell = cell;
    tokens.push(Token::CellStart);
    tokens.append(&mut cell);
    tokens.push(Token::CellEnd);
    assert(tokens.deep_view() =~= before + cell_tokens(held));
}

/// Appends a row to the tokens, between the frame tokens of the header or of
/// a data row.
fn push_row(tokens: &mut Vec<Token>, row: Vec<Vec<Token>>, header: bool)
    ensures
        final(tokens).deep_view() == old(tokens).deep_view() + (if header {
            head_tokens(row.deep_view())
        } else {
            row_tokens(row.deep_view())
        }),
{
    let ghost before = tokens.deep_view();
    let ghost cells = row.deep_view();
    if header {
        tokens.push(Token::HeadStart);
    } else {
        tokens.push(Token::RowStart);
    }
    let ghost opened = tokens.deep_view();
    assert(opened =~= before.push(
        if header {
            TokenView::HeadStart
        } else {
            TokenView::RowStart
        },
    ));
    for cell in it: row
        invariant
            it.seq() == row@,
            cells == row.deep_view(),
            tokens.deep_view() == opened + cells_tokens(cells.take(it.index() as int)),
    {
        proof {
            lemma_cells_tokens_push(cells.take(it.index() as int), cell.deep_view());
            assert(cells.take(it.index() + 1) =~= cells.take(it.index() as int).push(
                cell.deep_view(),
            ));
        }
        push_cell(tokens, cell);
        assert(tokens.deep_view() =~= opened + cells_tokens(cells.take(it.index() + 1)));
    }
    assert(cells.take(row@.len() as int) =~= cells);
    let ghost filled = tokens.deep_view();
    assert(filled == opened + cells_tokens(cells));
    if header {
        tokens.push(Token::HeadEnd);
        assert(tokens.deep_view() =~= filled.push(TokenView::HeadEnd));
        assert(tokens.deep_view() =~= before + head_tokens(cells));
    } else {
        tokens.push(Token::RowEnd);
        assert(tokens.deep_view() =~= filled.push(TokenView::RowEnd));
        assert(tokens.deep_view() =~= before + row_tokens(cells));
    }
}

impl View for MarkdownTable {
    type V = TableView;

    closed spec fn view(&self) -> TableView {
        TableView { alignment: self.alignment@, content: self.content.deep_view() }
    }
}

impl MarkdownTable {
    /// A table has its header row, and its cells hold no token that frames a
    /// row or a cell or ends a table.
    pub open spec fn wf(&self) -> bool {
        content_wf(self@.content)
    }

    /// The extractor: reads a table from the tokens that follow its start,
    /// and takes them from the front of `tokens`, up to the end of the table.
    ///
    /// The tokens must be those of a header row and of data rows, each a run
    /// of cells, each cell a run of content, and then the end of the table.
    /// Where they are, the table is returned and what follows it is left in
    /// `tokens`. Where they are not, the table is malformed, and the tokens
    /// up to the first that is out of place are gone, that one included.
    pub fn new(alignment: Vec<Alignment>, tokens: &mut VecDeque<Token>) -> (result: Result<
        MarkdownTable,
        RunError,
    >)
        ensures
            match extract(old(tokens).deep_view()) {
                Some((content, rest)) => {
                    &&& result is Ok
                    &&& result.unwrap().wf()
                    &&& result.unwrap()@ == (TableView { alignment: alignment@, content })
                    &&& final(tokens).deep_view() == rest
                    &&& old(tokens).deep_view() == body_tokens(content) + rest
                },
                None => result == Err::<MarkdownTable, RunError>(RunError::MalformedTableStream),
            },
            taken(old(tokens).deep_view()) <= old(tokens).deep_view().len(),
            final(tokens).deep_view() == old(tokens).deep_view().skip(
                taken(old(tokens).deep_view()) as int,
            ),
            result is Err ==> forall|content: ContentView, rest: Seq<TokenView>|
                !is_table_then(old(tokens).deep_view(), content, rest),
    {
        let ghost given = tokens.deep_view();
        let mut content: Vec<Vec<Vec<Token>>> = Vec::new();
        let mut row: Vec<Vec<Token>> = Vec::new();
        let mut cell: Vec<Token> = Vec::new();
        let mut level = Level::Table;
        proof {
            assert(given.skip(0) =~= given);
            assert(content.deep_view() =~= Seq::<RowView>::empty());
            lemma_extract_exact(given);
        }
        loop
            invariant
                given == old(tokens).deep_view(),
                tokens.deep_view().len() <= given.len(),
                tokens.deep_view() == given.skip(given.len() - tokens.deep_view().len()),
                taken(given) == given.len() - tokens.deep_view().len() + taken_from(
                    reading(level, content.deep_view(), row.deep_view(), cell.deep_view()),
                    tokens.deep_view(),
                ),
                extract(given) == extract_from(
                    reading(level, content.deep_view(), row.deep_view(), cell.deep_view()),
                    tokens.deep_view(),
                ),
                extract(given) is Some ==> is_table_then(
                    given,
                    extract(given).unwrap().0,
                    extract(given).unwrap().1,
                ),
                extract(given) is None ==> forall|c: ContentView, rest: Seq<TokenView>|
                    !is_table_then(given, c, rest),
            decreases tokens.len(),
        {
            let ghost before = tokens.deep_view();
            let token = match tokens.pop_front() {
                Some(token) => token,
                None => {
                    return Err(RunError::MalformedTableStream);
                },
            };
            proof {
                assert(tokens.deep_view() =~= before.drop_first());
                assert(token@ == before[0]);
                assert(tokens.deep_view() =~= given.skip(given.len() - tokens.deep_view().len()));
            }
            match level {
                Level::Table => match token {
                    Token::TableEnd => {
                        if content.len() >= 1 {
                            return Ok(MarkdownTable { alignment, content });
                        } else {
                            return Err(RunError::MalformedTableStream);
                        }
                    },
                    Token::HeadStart => {
                        if content.len() == 0 {
                            row = Vec::new();
                            level = Level::Row;
                            assert(row.deep_view() =~= Seq::<CellView>::empty());
                        } else {
                            return Err(RunError::MalformedTableStream);
                        }
                    },
                    Token::RowStart => {
                        if content.len() >= 1 {
                            row = Vec::new();
                            level = Level::Row;
                            assert(row.deep_view() =~= Seq::<CellView>::empty());
                        } else {
                            return Err(RunError::MalformedTableStream);
                        }
                    },
                    _ => {
                        return Err(RunError::MalformedTableStream);
                    },
                },
                Level::Row => match token {
                    Token::CellStart => {
                        cell = Vec::new();
                        level = Level::Cell;
                        assert(cell.deep_view() =~= Seq::<TokenView>::empty());
                    },
                    Token::HeadEnd => {
                        if content.len() == 0 {
                            let ghost closed = content.deep_view();
                            let ghost cells = row.deep_view();
                            content.push(row);
                            row = Vec::new();
                            level = Level::Table;
                            assert(content.deep_view() =~= closed.push(cells));
                        } else {
                            return Err(RunError::MalformedTableStream);
                        }
                    },
                    Token::RowEnd => {
                        if content.len() >= 1 {
                            let ghost closed = content.deep_view();
                            let ghost cells = row.deep_view();
                            content.push(row);
                            row = Vec::new();
                            level = Level::Table;
                            assert(content.deep_view() =~= closed.push(cells));
                        } else {
                            return Err(RunError::MalformedTableStream);
                        }
                    },
                    _ => {
                        return Err(RunError::MalformedTableStream);
                    },
                },
                Level::Cell => match token {
                    Token::CellEnd => {
                        let ghost cells = row.deep_view();
                        let ghost held = cell.deep_view();
                        row.push(cell);
                        cell = Vec::new();
                        level = Level::Row;
                        assert(row.deep_view() =~= cells.push(held));
                    },
                    Token::TableStart(_) | Token::Text(_) | Token::Other(_) => {
                        let ghost held = cell.deep_view();
                        let ghost added = token@;
                        cell.push(token);
                        assert(cell.deep_view() =~= held.push(added));
                    },
                    _ => {
                        return Err(RunError::MalformedTableStream);
                    },
                },
            }
        }
    }

    /// The detector: whether this is a roll table, one that is to be
    /// labelled.
    pub fn is_roll_table(&self) -> (accepted: bool)
        ensures
            accepted == is_roll_table(self@.content),
    {
        if self.content.len() == 0 || self.content[0].len() == 0 {
            return false;
        }
        let first = &self.content[0][0];
        if first.len() != 1 {
            assert(self@.content[0][0].len() != 1);
            return false;
        }
        let marked = match &first[0] {
            Token::Text(text) => {
                proof {
                    reveal_strlit("d");
                    assert("d"@ =~= seq!['d']);
                }
                *text == String::from_str("d")
            },
            _ => false,
        };
        if !marked {
            assert(self@.content[0][0][0] != TokenView::Text(seq!['d']));
            return false;
        }
        assert(self@.content[0][0] =~= marker_cell());
        let mut r: usize = 1;
        while r < self.content.len()
            invariant
                1 <= r <= self.content.len(),
                self@.content.len() == self.content.len(),
                forall|k: int|
                    1 <= k < r ==> (#[trigger] self@.content[k]).len() >= 1
                        && self@.content[k][0].len() == 0,
            decreases self.content.len() - r,
        {
            if self.content[r].len() == 0 || self.content[r][0].len() != 0 {
                assert(!((#[trigger] self@.content[r as int]).len() >= 1
                    && self@.content[r as int][0].len() == 0));
                return false;
            }
            r = r + 1;
        }
        true
    }

    /// Puts labels into the first column of a roll table: `head` into the
    /// header, the cells of `rows` into the data rows, in order.
    ///
    /// The table needs exactly one label for each data row; with any other
    /// number it is left as it was.
    pub fn set_labels(&mut self, head: Vec<Token>, rows: Vec<Vec<Token>>) -> (result: Result<
        (),
        RunError,
    >)
        requires
            old(self).wf(),
            is_roll_table(old(self)@.content),
            cell_wf(head.deep_view()),
            row_wf(rows.deep_view()),
        ensures
            final(self)@.alignment == old(self)@.alignment,
            match result {
                Ok(_) => {
                    &&& rows.len() == old(self)@.content.len() - 1
                    &&& final(self)@.content == labelled(
                        old(self)@.content,
                        head.deep_view(),
                        rows.deep_view(),
                    )
                    &&& final(self).wf()
                },
                Err(error) => {
                    &&& error == RunError::GeneratorLengthMismatch
                    &&& rows.len() != old(self)@.content.len() - 1
                    &&& final(self)@ == old(self)@
                },
            },
    {
        if rows.len() != self.content.len() - 1 {
            return Err(RunError::GeneratorLengthMismatch);
        }
        let ghost before = self.content.deep_view();
        let ghost head_view = head.deep_view();
        let ghost labels = rows.deep_view();
        self.content[0][0] = head;
        assert(self.content.deep_view()[0] =~= before[0].update(0, head_view));
        assert(self.content.deep_view() =~= with_label(before, 0, head_view));
        let mut r: usize = 1;
        for label in it: rows
            invariant
                it.seq() == rows@,
                labels == rows.deep_view(),
                r == it.index() + 1,
                rows@.len() == before.len() - 1,
                self.alignment == old(self).alignment,
                self.content.len() == before.len(),
                self.content.deep_view().len() == before.len(),
                before[0].len() >= 1,
                self.content.deep_view()[0] == before[0].update(0, head_view),
                forall|k: int|
                    1 <= k < r ==> #[trigger] self.content.deep_view()[k] == before[k].update(
                        0,
                        labels[k - 1],
                    ),
                forall|k: int|
                    r <= k < before.len() ==> #[trigger] self.content.deep_view()[k] == before[k],
                forall|k: int| 1 <= k < before.len() ==> (#[trigger] before[k]).len() >= 1,
        {
            let ghost earlier = self.content.deep_view();
            let ghost label_view = label.deep_view();
            assert(before[r as int].len() >= 1);
            assert(earlier[r as int] == before[r as int]);
            self.content[r][0] = label;
            assert(self.content.deep_view()[r as int] =~= earlier[r as int].update(0, label_view));
            assert(self.content.deep_view() =~= with_label(earlier, r as int, label_view));
            r = r + 1;
        }
        proof {
            let after = self.content.deep_view();
            let wanted = labelled(before, head_view, labels);
            assert(after =~= wanted);
            assert(rows_wf(wanted)) by {
                assert forall|k: int| 0 <= k < wanted.len() implies row_wf(
                    #[trigger] wanted[k],
                ) by {
                    assert(row_wf(before[k]));
                    let label = if k == 0 {
                        head_view
                    } else {
                        labels[k - 1]
                    };
                    assert(cell_wf(label));
                    assert forall|c: int| 0 <= c < wanted[k].len() implies cell_wf(
                        #[trigger] wanted[k][c],
                    ) by {
                        if c != 0 {
                            assert(wanted[k][c] == before[k][c]);
                        }
                    }
                }
            }
        }
        Ok(())
    }

    /// The reassembler: writes the table as tokens again, the reverse of
    /// `new`, with the table's start in front.
    pub fn into_tokens(self) -> (tokens: Vec<Token>)
        requires
            self.wf(),
        ensures
            tokens.deep_view() == table_tokens(self@),
    {
        let ghost table = self@;
        let MarkdownTable { alignment, content } = self;
        let ghost all = content.deep_view();
        let mut tokens: Vec<Token> = Vec::new();
        tokens.push(Token::TableStart(alignment));
        let ghost start = tokens.deep_view();
        assert(start =~= seq![TokenView::TableStart(table.alignment)]);
        let mut header = true;
        for row in it: content
            invariant
                it.seq() == content@,
                all == content.deep_view(),
                header == (it.index() == 0),
                tokens.deep_view() == start + closed_tokens(all.take(it.index() as int)),
        {
            let ghost earlier = all.take(it.index() as int);
            proof {
                lemma_closed_tokens_push(earlier, row.deep_view());
                assert(all.take(it.index() + 1) =~= earlier.push(row.deep_view()));
            }
            push_row(&mut tokens, row, header);
            header = false;
            assert(tokens.deep_view() =~= start + closed_tokens(all.take(it.index() + 1)));
        }
        assert(all.take(content@.len() as int) =~= all);
        let ghost closed = tokens.deep_view();
        tokens.push(Token::TableEnd);
        assert(tokens.deep_view() =~= closed.push(TokenView::TableEnd));
        assert(tokens.deep_view() =~= table_tokens(table));
        tokens
    }

    /// The cells of the header row.
    pub fn head(&self) -> (cells: &Vec<Vec<Token>>)
        requires
            self.wf(),
        ensures
            cells.deep_view() == self@.content[0],
    {
        &self.content[0]
    }

    /// The data rows, in order.
    pub fn rows(&self) -> (rows: &[Vec<Vec<Token>>])
        requires
            self.wf(),
        ensures
            rows.deep_view() == self@.content.skip(1),
    {
        let rows = &self.content[1..self.content.len()];
        assert(rows.deep_view() =~= self@.content.skip(1));
        rows
    }

    /// The number of data rows.
    pub fn row_count(&self) -> (count: usize)
        requires
            self.wf(),
        ensures
            count == self@.content.len() - 1,
    {
        self.content.len() - 1
    }

    /// The cells of data row `index`, counted from zero.
    pub fn row(&self, index: usize) -> (cells: &Vec<Vec<Token>>)
        requires
            self.wf(),
            index + 1 < self@.content.len(),
        ensures
            cells.deep_view() == self@.content[index + 1],
    {
        assert(self@.content.len() == self.content.len());
        &self.content[index + 1]
    }

    /// The alignment of the columns.
    pub fn alignment(&self) -> (alignment: &Vec<Alignment>)
        ensures
            alignment@ == self@.alignment,
    {
        &self.alignment
    }
}

} // verus!
