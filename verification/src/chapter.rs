//! A chapter's token stream, rewritten: every token passes through
//! untouched but the roll tables, which get their labels.

use crate::dice::{dice_labels, header_label, is_unusual, row_label, DieConfig, DieConfigView};
use crate::error::RunError;
use crate::grammar::{
    cell_wf, extract, lemma_extract_from_shortens, row_wf, CellView, ContentView, Extraction,
};
use crate::markdown::{
    classify, event_of, markdown_events, parse_events, render, rendered, to_event, token_of,
};
use crate::table::{is_roll_table, labelled, table_tokens, MarkdownTable, TableView};
use crate::token::{Token, TokenView};
use pulldown_cmark::Event;
use std::collections::VecDeque;
use vstd::prelude::*;

verus! {

/// The header's first cell in a roll table of `count` data rows.
pub open spec fn head_cell(count: nat, cfg: DieConfigView) -> CellView {
    seq![TokenView::Text(header_label(count, cfg))]
}

/// The first cells of the data rows in a roll table of `count` data rows.
pub open spec fn label_cells(count: nat, cfg: DieConfigView) -> Seq<CellView> {
    Seq::new(count, |i: int| seq![TokenView::Text(row_label(count, cfg, i as nat))])
}

/// The rows of a table after the rewriting: a roll table with its labels,
/// any other table as it was.
pub open spec fn rewritten(content: ContentView, cfg: DieConfigView) -> ContentView {
    if is_roll_table(content) {
        let count = (content.len() - 1) as nat;
        labelled(content, head_cell(count, cfg), label_cells(count, cfg))
    } else {
        content
    }
}

/// The die to warn of after a table was rewritten: the number of its data
/// rows, where it is a roll table with a single die of an uncommon size and
/// warnings are wanted.
pub open spec fn warning(content: ContentView, cfg: DieConfigView) -> Option<nat> {
    let count = (content.len() - 1) as nat;
    if is_roll_table(content) && cfg.warn_unusual_dice && is_unusual(count) {
        Some(count)
    } else {
        None
    }
}

/// The warnings of a stream with those of one more table in front.
pub open spec fn with_warning(first: Option<nat>, later: Seq<nat>) -> Seq<nat> {
    match first {
        Some(sides) => seq![sides] + later,
        None => later,
    }
}

/// A rewritten token stream, and the dice that are worth a warning, one for
/// each table that gave rise to one, in the order of the tables.
pub struct RewrittenView {
    pub tokens: Seq<TokenView>,
    pub unusual_dice: Seq<nat>,
}

/// The rewriting of a token stream.
///
/// A token that does not start a table is passed on. The start of a table
/// must be followed by the tokens of a well-formed table: that table is
/// passed on, with labels where it is a roll table, and the rewriting goes on
/// behind it. Where the start of a table is followed by anything else, there
/// is no result.
pub open spec fn transform(tokens: Seq<TokenView>, cfg: DieConfigView) -> Option<RewrittenView>
    decreases tokens.len(),
{
    if tokens.len() == 0 {
        Some(RewrittenView { tokens: Seq::empty(), unusual_dice: Seq::empty() })
    } else if tokens[0] is TableStart {
        match extract(tokens.drop_first()) {
            Some((content, rest)) => {
                proof {
                    lemma_extract_from_shortens(
                        Extraction::Table { content: Seq::empty() },
                        tokens.drop_first(),
                    );
                }
                match transform(rest, cfg) {
                    Some(later) => Some(
                        RewrittenView {
                            tokens: table_tokens(
                                TableView {
                                    alignment: tokens[0]->TableStart_0,
                                    content: rewritten(content, cfg),
                                },
                            ) + later.tokens,
                            unusual_dice: with_warning(warning(content, cfg), later.unusual_dice),
                        },
                    ),
                    None => None,
                }
            },
            None => None,
        }
    } else {
        match transform(tokens.drop_first(), cfg) {
            Some(later) => Some(
                RewrittenView {
                    tokens: seq![tokens[0]] + later.tokens,
                    unusual_dice: later.unusual_dice,
                },
            ),
            None => None,
        }
    }
}

/// A stream that the rewriting leaves as it is, with nothing to warn of.
pub open spec fn unchanged(tokens: Seq<TokenView>) -> Option<RewrittenView> {
    Some(RewrittenView { tokens, unusual_dice: Seq::empty() })
}

/// Whether one of the tables in the stream is a roll table.
pub open spec fn has_roll_table(tokens: Seq<TokenView>) -> bool
    decreases tokens.len(),
{
    if tokens.len() == 0 {
        false
    } else if tokens[0] is TableStart {
        match extract(tokens.drop_first()) {
            Some((content, rest)) => {
                proof {
                    lemma_extract_from_shortens(
                        Extraction::Table { content: Seq::empty() },
                        tokens.drop_first(),
                    );
                }
                is_roll_table(content) || has_roll_table(rest)
            },
            None => false,
        }
    } else {
        has_roll_table(tokens.drop_first())
    }
}

/// What was rewritten so far, followed by the rewriting of what is left.
pub open spec fn continued(
    tokens: Seq<TokenView>,
    unusual_dice: Seq<nat>,
    later: Option<RewrittenView>,
) -> Option<RewrittenView> {
    match later {
        Some(later) => Some(
            RewrittenView {
                tokens: tokens + later.tokens,
                unusual_dice: unusual_dice + later.unusual_dice,
            },
        ),
        None => None,
    }
}

/// The numbers of a vector of sizes.
pub open spec fn sizes(dice: Seq<usize>) -> Seq<nat> {
    Seq::new(dice.len(), |i: int| dice[i] as nat)
}

/// A rewritten token stream, and the dice that are worth a warning.
#[derive(Debug)]
pub struct Rewritten {
    /// The tokens, ready for the renderer.
    pub tokens: Vec<Token>,
    /// For each roll table that has a single die of an uncommon size, where
    /// warnings are wanted, the sides of that die, in the order of the tables.
    pub unusual_dice: Vec<usize>,
}

impl View for Rewritten {
    type V = RewrittenView;

    open spec fn view(&self) -> RewrittenView {
        RewrittenView {
            tokens: self.tokens.deep_view(),
            unusual_dice: sizes(self.unusual_dice@),
        }
    }
}

/// Rewrites one table: a roll table gets its labels, any other table stays
/// as it is. Returns the sides of the die where the caller is to warn of it.
pub fn rewrite_table(table: &mut MarkdownTable, cfg: &DieConfig) -> (unusual: Option<usize>)
    requires
        old(table).wf(),
    ensures
        final(table).wf(),
        final(table)@.alignment == old(table)@.alignment,
        final(table)@.content == rewritten(old(table)@.content, cfg@),
        !is_roll_table(old(table)@.content) ==> final(table)@ == old(table)@,
        match unusual {
            Some(sides) => warning(old(table)@.content, cfg@) == Some(sides as nat),
            None => warning(old(table)@.content, cfg@) is None,
        },
{
    if !table.is_roll_table() {
        return None;
    }
    let count = table.row_count();
    let labels = dice_labels(count, cfg);
    proof {
        assert(cell_wf(labels.head.deep_view()));
        assert(labels.rows.deep_view() =~= label_cells(count as nat, cfg@));
        assert(row_wf(labels.rows.deep_view())) by {
            assert forall|c: int| 0 <= c < labels.rows.deep_view().len() implies cell_wf(
                #[trigger] labels.rows.deep_view()[c],
            ) by {
                assert(labels.rows.deep_view()[c] == labels.rows[c].deep_view());
            }
        }
    }
    let unusual = labels.unusual;
    let relabelled = table.set_labels(labels.head, labels.rows);
    assert(relabelled is Ok);
    if unusual {
        Some(count)
    } else {
        None
    }
}

/// The driver: rewrites a chapter's token stream, in one pass from its
/// first token to its last.
pub fn rewrite_tokens(tokens: VecDeque<Token>, cfg: &DieConfig) -> (result: Result<
    Rewritten,
    RunError,
>)
    ensures
        match transform(tokens.deep_view(), cfg@) {
            Some(expected) => result is Ok && result.unwrap()@ == expected,
            None => result is Err && result->Err_0 == RunError::MalformedTableStream,
        },
{
    let ghost given = tokens.deep_view();
    let mut queue = tokens;
    let mut out: Vec<Token> = Vec::new();
    let mut unusual_dice: Vec<usize> = Vec::new();
    proof {
        assert(out.deep_view() =~= Seq::<TokenView>::empty());
        assert(sizes(unusual_dice@) =~= Seq::<nat>::empty());
        match transform(given, cfg@) {
            Some(all) => {
                assert(Seq::<TokenView>::empty() + all.tokens =~= all.tokens);
                assert(Seq::<nat>::empty() + all.unusual_dice =~= all.unusual_dice);
            },
            None => {},
        }
    }
    loop
        invariant
            given == tokens.deep_view(),
            transform(given, cfg@) == continued(
                out.deep_view(),
                sizes(unusual_dice@),
                transform(queue.deep_view(), cfg@),
            ),
        decreases queue.deep_view().len(),
    {
        let ghost left = queue.deep_view();
        let ghost done = out.deep_view();
        let ghost warned = sizes(unusual_dice@);
        let token = match queue.pop_front() {
            Some(token) => token,
            None => {
                proof {
                    assert(done + Seq::<TokenView>::empty() =~= done);
                    assert(warned + Seq::<nat>::empty() =~= warned);
                }
                return Ok(Rewritten { tokens: out, unusual_dice });
            },
        };
        assert(queue.deep_view() =~= left.drop_first());
        assert(token@ == left[0]);
        match token {
            Token::TableStart(alignment) => {
                let ghost body = queue.deep_view();
                let mut table = match MarkdownTable::new(alignment, &mut queue) {
                    Ok(table) => table,
                    Err(_) => {
                        return Err(RunError::MalformedTableStream);
                    },
                };
                let ghost content = table@.content;
                let unusual = rewrite_table(&mut table, cfg);
                let ghost written = table@;
                let mut written_tokens = table.into_tokens();
                out.append(&mut written_tokens);
                match unusual {
                    Some(sides) => {
                        unusual_dice.push(sides);
                    },
                    None => {},
                }
                proof {
                    let rest = queue.deep_view();
                    lemma_extract_from_shortens(Extraction::Table { content: Seq::empty() }, body);
                    assert(out.deep_view() =~= done + table_tokens(written));
                    assert(sizes(unusual_dice@) =~= warned + with_warning(
                        warning(content, cfg@),
                        Seq::empty(),
                    ));
                    match transform(rest, cfg@) {
                        Some(later) => {
                            assert(done + (table_tokens(written) + later.tokens) =~= (done
                                + table_tokens(written)) + later.tokens);
                            assert(warned + with_warning(
                                warning(content, cfg@),
                                later.unusual_dice,
                            ) =~= (warned + with_warning(warning(content, cfg@), Seq::empty()))
                                + later.unusual_dice);
                        },
                        None => {},
                    }
                }
            },
            other => {
                let ghost passed = other@;
                out.push(other);
                proof {
                    assert(out.deep_view() =~= done.push(passed));
                    match transform(left.drop_first(), cfg@) {
                        Some(later) => {
                            assert(done + (seq![passed] + later.tokens) =~= done.push(passed)
                                + later.tokens);
                        },
                        None => {},
                    }
                }
            },
        }
    }
}

/// The tokens that stand for the events, one for one.
pub open spec fn tokens_of(events: Seq<Event<'static>>) -> Seq<TokenView> {
    Seq::new(events.len(), |i: int| token_of(events[i]))
}

/// The events that the renderer is given for the tokens, one for one.
pub open spec fn events_of(tokens: Seq<TokenView>) -> Seq<Event<'static>> {
    Seq::new(tokens.len(), |i: int| event_of(tokens[i]))
}

/// A chapter after the rewriting, as the contracts see it.
pub struct ChapterView {
    pub content: Seq<char>,
    pub unusual_dice: Seq<nat>,
}

/// A chapter after the rewriting.
#[derive(Debug)]
pub struct Chapter {
    /// The chapter's new text.
    pub content: String,
    /// The dice to warn of, as in `Rewritten`.
    pub unusual_dice: Vec<usize>,
}

impl View for Chapter {
    type V = ChapterView;

    open spec fn view(&self) -> ChapterView {
        ChapterView { content: self.content@, unusual_dice: sizes(self.unusual_dice@) }
    }
}

impl DeepView for Chapter {
    type V = ChapterView;

    open spec fn deep_view(&self) -> ChapterView {
        self@
    }
}

/// What becomes of a chapter's text where the rewriting changes no token:
/// the events of the parser are rendered as they came.
pub open spec fn plain_result(content: Seq<char>) -> Result<ChapterView, RunError> {
    match rendered(markdown_events(content)) {
        Some(text) => Ok(ChapterView { content: text, unusual_dice: Seq::empty() }),
        None => Err(RunError::Unrenderable),
    }
}

/// What becomes of a chapter's text: it is parsed, its tokens are
/// rewritten, and the result is rendered as text again. A malformed table
/// and tokens that cannot be rendered are errors.
pub open spec fn chapter_result(content: Seq<char>, cfg: DieConfigView) -> Result<
    ChapterView,
    RunError,
> {
    match transform(tokens_of(markdown_events(content)), cfg) {
        Some(rewritten) => match rendered(events_of(rewritten.tokens)) {
            Some(text) => Ok(ChapterView { content: text, unusual_dice: rewritten.unusual_dice }),
            None => Err(RunError::Unrenderable),
        },
        None => Err(RunError::MalformedTableStream),
    }
}

/// Parses a text into tokens. The tokens stand for the events of the
/// parser, and the renderer is given those events again for them.
pub fn tokenize(text: &str) -> (tokens: VecDeque<Token>)
    ensures
        tokens.deep_view() == tokens_of(markdown_events(text@)),
        events_of(tokens.deep_view()) == markdown_events(text@),
{
    let events = parse_events(text);
    let mut tokens: VecDeque<Token> = VecDeque::new();
    for event in it: events
        invariant
            it.seq() == events@,
            tokens.deep_view() == tokens_of(events@.take(it.index() as int)),
            events_of(tokens.deep_view()) == events@.take(it.index() as int),
    {
        let ghost before = tokens.deep_view();
        let token = classify(event);
        let ghost added = token@;
        tokens.push_back(token);
        assert(tokens.deep_view() =~= before.push(added));
        assert(tokens.deep_view() =~= tokens_of(events@.take(it.index() + 1)));
        assert(events_of(before.push(added)) =~= events_of(before).push(event_of(added)));
        assert(events_of(tokens.deep_view()) =~= events@.take(it.index() + 1));
    }
    assert(events@.take(events@.len() as int) =~= events@);
    tokens
}

/// Renders tokens as text.
pub fn render_tokens(tokens: Vec<Token>) -> (text: Result<String, RunError>)
    ensures
        match rendered(events_of(tokens.deep_view())) {
            Some(expected) => text is Ok && text.unwrap()@ == expected,
            None => text is Err && text->Err_0 == RunError::Unrenderable,
        },
{
    let ghost all = tokens.deep_view();
    let mut events: Vec<Event<'static>> = Vec::new();
    for token in it: tokens
        invariant
            it.seq() == tokens@,
            all == tokens.deep_view(),
            events@ == events_of(all.take(it.index() as int)),
    {
        events.push(to_event(token));
        assert(events@ =~= events_of(all.take(it.index() + 1)));
    }
    assert(all.take(tokens@.len() as int) =~= all);
    match render(&events) {
        Ok(text) => Ok(text),
        Err(_) => Err(RunError::Unrenderable),
    }
}

} // verus!
