//! Tokens of a markdown document, as far as a table's structure needs them.

use pulldown_cmark::{Alignment, Event};
use vstd::prelude::*;

verus! {

/// One unit of a document's token stream.
///
/// The tokens that frame a table, its rows and its cells, and a text, are
/// told apart. Every other event of the parser is kept as it came and is
/// never looked into.
#[derive(Debug, PartialEq)]
pub enum Token {
    /// A table begins; with the alignment of its columns.
    TableStart(Vec<Alignment>),
    /// A table ends.
    TableEnd,
    /// The header row begins.
    HeadStart,
    /// The header row ends.
    HeadEnd,
    /// A data row begins.
    RowStart,
    /// A data row ends.
    RowEnd,
    /// A cell begins.
    CellStart,
    /// A cell ends.
    CellEnd,
    /// A run of text.
    Text(String),
    /// Any other event.
    Other(Event<'static>),
}

/// What a token is to the contracts.
pub enum TokenView {
    TableStart(Seq<Alignment>),
    TableEnd,
    HeadStart,
    HeadEnd,
    RowStart,
    RowEnd,
    CellStart,
    CellEnd,
    Text(Seq<char>),
    Other(Event<'static>),
}

impl View for Token {
    type V = TokenView;

    open spec fn view(&self) -> TokenView {
        match *self {
            Token::TableStart(alignment) => TokenView::TableStart(alignment@),
            Token::TableEnd => TokenView::TableEnd,
            Token::HeadStart => TokenView::HeadStart,
            Token::HeadEnd => TokenView::HeadEnd,
            Token::RowStart => TokenView::RowStart,
            Token::RowEnd => TokenView::RowEnd,
            Token::CellStart => TokenView::CellStart,
            Token::CellEnd => TokenView::CellEnd,
            Token::Text(text) => TokenView::Text(text@),
            Token::Other(event) => TokenView::Other(event),
        }
    }
}

impl DeepView for Token {
    type V = TokenView;

    open spec fn deep_view(&self) -> TokenView {
        self@
    }
}

} // verus!
