//! The markdown parser and renderer, and the passage between their events and
//! this library's tokens. Nothing in this file is proved: each function states
//! what is taken on trust of the code it calls.

use crate::token::{Token, TokenView};
use pulldown_cmark::{Alignment, CowStr, Event, Options, Parser, Tag, TagEnd};
use pulldown_cmark_to_cmark::cmark;
use vstd::prelude::*;

verus! {

/// `pulldown_cmark::Event`, one event of the markdown parser. Nothing
/// inside it is visible to the proofs: an event is carried through, and two
/// events are equal or not.
#[verifier::external_type_specification]
#[verifier::external_body]
pub struct ExEvent<'a>(Event<'a>);

/// `pulldown_cmark::Alignment`, how a column of a table is aligned. It is
/// only carried from the start of a table to where the table is written
/// again.
#[verifier::external_type_specification]
#[verifier::external_body]
pub struct ExAlignment(Alignment);

/// `pulldown_cmark_to_cmark::Error`, why the renderer gave up. It is only
/// told apart from success.
#[verifier::external_type_specification]
#[verifier::external_body]
pub struct ExRenderError(pulldown_cmark_to_cmark::Error);

/// The events that `pulldown_cmark::Parser` yields for a text when tables are
/// the only extension switched on.
pub uninterp spec fn markdown_events(text: Seq<char>) -> Seq<Event<'static>>;

/// The token that `classify` makes of an event of the parser.
pub uninterp spec fn token_of(event: Event<'static>) -> TokenView;

/// The event that `to_event` makes of a token, for the renderer.
pub uninterp spec fn event_of(token: TokenView) -> Event<'static>;

/// The text that `pulldown_cmark_to_cmark::cmark` writes for a sequence of
/// events, or `None` where it reports an error.
pub uninterp spec fn rendered(events: Seq<Event<'static>>) -> Option<Seq<char>>;

/// Runs `pulldown_cmark::Parser::new_ext` with `Options::ENABLE_TABLES` over
/// the whole text and collects its events, each detached from the text by
/// `Event::into_static`. The parser reads nothing but its arguments, so the
/// events are a function of the text.
#[verifier::external_body]
pub(crate) fn parse_events(text: &str) -> (events: Vec<Event<'static>>)
    ensures
        events@ == markdown_events(text@),
{
    Parser::new_ext(text, Options::ENABLE_TABLES).map(Event::into_static).collect()
}

/// Tells the variants of `pulldown_cmark::Event` apart: the eight events that
/// frame a table, its rows and its cells, and a text, become the token of that
/// name with the same payload; every other event is kept whole. Each arm is
/// the reverse of the arm of the same token in `to_event`, so the event that
/// `to_event` makes of the token equals the event that was given, as `==`
/// on events has it: a text is compared by its characters.
#[verifier::external_body]
pub(crate) fn classify(event: Event<'static>) -> (token: Token)
    ensures
        token@ == token_of(event),
        event_of(token@) == event,
{
    match event {
        Event::Start(Tag::Table(alignment)) => Token::TableStart(alignment),
        Event::End(TagEnd::Table) => Token::TableEnd,
        Event::Start(Tag::TableHead) => Token::HeadStart,
        Event::End(TagEnd::TableHead) => Token::HeadEnd,
        Event::Start(Tag::TableRow) => Token::RowStart,
        Event::End(TagEnd::TableRow) => Token::RowEnd,
        Event::Start(Tag::TableCell) => Token::CellStart,
        Event::End(TagEnd::TableCell) => Token::CellEnd,
        Event::Text(text) => Token::Text(text.into_string()),
        other => Token::Other(other),
    }
}

/// The way back: builds the `pulldown_cmark::Event` of a token's name with
/// the token's payload, and hands out the event that an `Other` kept.
#[verifier::external_body]
pub(crate) fn to_event(token: Token) -> (event: Event<'static>)
    ensures
        event == event_of(token@),
{
    match token {
        Token::TableStart(alignment) => Event::Start(Tag::Table(alignment)),
        Token::TableEnd => Event::End(TagEnd::Table),
        Token::HeadStart => Event::Start(Tag::TableHead),
        Token::HeadEnd => Event::End(TagEnd::TableHead),
        Token::RowStart => Event::Start(Tag::TableRow),
        Token::RowEnd => Event::End(TagEnd::TableRow),
        Token::CellStart => Event::Start(Tag::TableCell),
        Token::CellEnd => Event::End(TagEnd::TableCell),
        Token::Text(text) => Event::Text(CowStr::from(text)),
        Token::Other(event) => event,
    }
}

/// Calls `pulldown_cmark_to_cmark::cmark` on the events, with the parser
/// options that `parse_events` uses, writing into a fresh `String`. Its
/// documentation says that an invalid event stream is reported as an error;
/// the text is returned only on success.
#[verifier::external_body]
pub(crate) fn render(events: &Vec<Event<'static>>) -> (text: Result<
    String,
    pulldown_cmark_to_cmark::Error,
>)
    ensures
        match text {
            Ok(text) => rendered(events@) == Some(text@),
            Err(_) => rendered(events@) is None,
        },
{
    let mut buffer = String::new();
    match cmark(events.iter(), &mut buffer, Options::ENABLE_TABLES) {
        Ok(_) => Ok(buffer),
        Err(error) => Err(error),
    }
}

} // verus!
