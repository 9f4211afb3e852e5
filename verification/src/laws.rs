//! What holds of the rewriting as a whole, proved from the definitions.

use crate::chapter::{has_roll_table, head_cell, rewritten, transform, unchanged};
use crate::config::{config_of, is_recognized, ConfigValueView};
use crate::dice::{combined_dice, decimal, header_label, DieConfigView};
use crate::error::{ConfigKey, RunError};
use crate::grammar::{
    body_tokens, cell_wf, content_wf, extract, lemma_extract_complete,
    lemma_extract_from_shortens, lemma_extract_sound, row_wf, ContentView, Extraction,
};
use crate::table::{is_roll_table, marker_cell, table_tokens, TableView};
use crate::token::TokenView;
use crate::run_result;
use pulldown_cmark::Alignment;
use vstd::prelude::*;

verus! {

/// A table that is read from tokens and written again gives the tokens it
/// was read from: with the start of the table in front, the table's tokens
/// and what was left behind it are the stream that was given. This holds
/// whether or not the table is a roll table.
pub proof fn lemma_round_trip(alignment: Seq<Alignment>, tokens: Seq<TokenView>)
    requires
        extract(tokens) is Some,
    ensures
        table_tokens(TableView { alignment, content: extract(tokens).unwrap().0 }) + extract(
            tokens,
        ).unwrap().1 == seq![TokenView::TableStart(alignment)] + tokens,
{
    let (content, rest) = extract(tokens).unwrap();
    lemma_extract_sound(tokens);
    assert(table_tokens(TableView { alignment, content }) + rest =~= seq![
        TokenView::TableStart(alignment),
    ] + (body_tokens(content) + rest));
}

/// A table that is written as tokens and read again is the same table, and
/// what stood behind its tokens is left over.
pub proof fn lemma_read_back(table: TableView, rest: Seq<TokenView>)
    requires
        content_wf(table.content),
    ensures
        (table_tokens(table) + rest)[0] == TokenView::TableStart(table.alignment),
        extract((table_tokens(table) + rest).drop_first()) == Some((table.content, rest)),
{
    lemma_extract_complete(table.content, rest);
    assert((table_tokens(table) + rest).drop_first() =~= body_tokens(table.content) + rest);
}

/// A number in decimal has a digit.
pub proof fn lemma_decimal_nonempty(n: nat)
    ensures
        decimal(n).len() >= 1,
{
}

/// The header of a labelled table is longer than the mark `d`.
pub proof fn lemma_header_label_long(count: nat, cfg: DieConfigView)
    ensures
        header_label(count, cfg).len() >= 2,
{
    match combined_dice(count) {
        Some((first, second)) => {
            lemma_decimal_nonempty(first);
        },
        None => {
            lemma_decimal_nonempty(count);
        },
    }
}

/// A table that was rewritten is well formed and no roll table any more.
pub proof fn lemma_rewritten_is_plain(content: ContentView, cfg: DieConfigView)
    requires
        content_wf(content),
    ensures
        content_wf(rewritten(content, cfg)),
        !is_roll_table(rewritten(content, cfg)),
        rewritten(content, cfg).len() == content.len(),
{
    if is_roll_table(content) {
        let count = (content.len() - 1) as nat;
        let after = rewritten(content, cfg);
        lemma_header_label_long(count, cfg);
        assert(after[0][0] == head_cell(count, cfg));
        assert(after[0][0][0] != marker_cell()[0]);
        assert forall|r: int| 0 <= r < after.len() implies row_wf(#[trigger] after[r]) by {
            assert(row_wf(content[r]));
            assert forall|c: int| 0 <= c < after[r].len() implies cell_wf(
                #[trigger] after[r][c],
            ) by {
                if c != 0 {
                    assert(after[r][c] == content[r][c]);
                }
            }
        }
    }
}

/// The pass-through law for one table: the rewriting of the tokens of a
/// well-formed table that is no roll table gives the same tokens, one for
/// one, and nothing to warn of.
pub proof fn lemma_pass_through(table: TableView, cfg: DieConfigView)
    requires
        content_wf(table.content),
        !is_roll_table(table.content),
    ensures
        transform(table_tokens(table), cfg) == unchanged(table_tokens(table)),
{
    let tokens = table_tokens(table);
    let nothing = Seq::<TokenView>::empty();
    assert(tokens + nothing =~= tokens);
    lemma_read_back(table, nothing);
    assert(transform(nothing, cfg) == unchanged(nothing));
    assert(table_tokens(TableView { alignment: table.alignment, content: table.content })
        + nothing =~= tokens);
    assert(tokens[0]->TableStart_0 == table.alignment);
}

/// The pass-through law for a stream: where the rewriting has a result and
/// no table in the stream is a roll table, the result is the stream itself.
pub proof fn lemma_pass_through_stream(tokens: Seq<TokenView>, cfg: DieConfigView)
    requires
        transform(tokens, cfg) is Some,
        !has_roll_table(tokens),
    ensures
        transform(tokens, cfg) == unchanged(tokens),
    decreases tokens.len(),
{
    if tokens.len() == 0 {
        assert(tokens =~= Seq::<TokenView>::empty());
    } else if tokens[0] is TableStart {
        let alignment = tokens[0]->TableStart_0;
        let (content, rest) = extract(tokens.drop_first()).unwrap();
        lemma_extract_from_shortens(
            Extraction::Table { content: Seq::empty() },
            tokens.drop_first(),
        );
        lemma_pass_through_stream(rest, cfg);
        lemma_round_trip(alignment, tokens.drop_first());
        assert(seq![TokenView::TableStart(alignment)] + tokens.drop_first() =~= tokens);
    } else {
        lemma_pass_through_stream(tokens.drop_first(), cfg);
        assert(seq![tokens[0]] + tokens.drop_first() =~= tokens);
    }
}

/// What the rewriting gives holds no roll table.
pub proof fn lemma_transform_clears(tokens: Seq<TokenView>, cfg: DieConfigView)
    requires
        transform(tokens, cfg) is Some,
    ensures
        transform(transform(tokens, cfg).unwrap().tokens, cfg) is Some,
        !has_roll_table(transform(tokens, cfg).unwrap().tokens),
    decreases tokens.len(),
{
    let out = transform(tokens, cfg).unwrap().tokens;
    if tokens.len() == 0 {
    } else if tokens[0] is TableStart {
        let alignment = tokens[0]->TableStart_0;
        let (content, rest) = extract(tokens.drop_first()).unwrap();
        lemma_extract_from_shortens(
            Extraction::Table { content: Seq::empty() },
            tokens.drop_first(),
        );
        lemma_extract_sound(tokens.drop_first());
        lemma_transform_clears(rest, cfg);
        let later = transform(rest, cfg).unwrap().tokens;
        let table = TableView { alignment, content: rewritten(content, cfg) };
        lemma_rewritten_is_plain(content, cfg);
        lemma_read_back(table, later);
        assert(out == table_tokens(table) + later);
    } else {
        lemma_transform_clears(tokens.drop_first(), cfg);
        let later = transform(tokens.drop_first(), cfg).unwrap().tokens;
        assert(out == seq![tokens[0]] + later);
        assert(out.drop_first() =~= later);
    }
}

/// Idempotence: the rewriting of a rewritten stream changes nothing, since
/// the header of a labelled table no longer holds the mark `d` alone.
pub proof fn lemma_idempotent(tokens: Seq<TokenView>, cfg: DieConfigView)
    requires
        transform(tokens, cfg) is Some,
    ensures
        transform(transform(tokens, cfg).unwrap().tokens, cfg) == unchanged(
            transform(tokens, cfg).unwrap().tokens,
        ),
{
    lemma_transform_clears(tokens, cfg);
    lemma_pass_through_stream(transform(tokens, cfg).unwrap().tokens, cfg);
}

/// An entry under a key that is none of the three options fails the
/// validation of the options, whatever the other entries hold, and so ends
/// the run before any chapter is looked at.
pub proof fn lemma_unrecognized_option_fails(
    entries: Seq<(Seq<char>, ConfigValueView)>,
    chapters: Seq<Seq<char>>,
    index: int,
)
    requires
        0 <= index < entries.len(),
        !is_recognized(entries[index].0),
    ensures
        config_of(entries) == Err::<DieConfigView, RunError>(
            RunError::ConfigValidation(ConfigKey::Unrecognized),
        ),
        run_result(entries, chapters) is Err,
        run_result(entries, chapters)->Err_0 == RunError::ConfigValidation(
            ConfigKey::Unrecognized,
        ),
{
}

} // verus!
