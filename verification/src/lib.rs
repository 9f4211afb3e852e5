//! Roll tables for markdown books: a table whose header starts with the cell
//! `d` and whose rows leave that column empty gets a die in its header and a
//! die result in front of each row.
//!
//! The number of rows chooses the die: a table of six rows is rolled with a
//! d6, one of thirty-six rows with two d6. A chapter's text is parsed into
//! tokens (`markdown`, `token`), each table among them is read into rows and
//! cells (`grammar`, `table`), a roll table gets its labels (`dice`), and the
//! tokens are written out and rendered as text again (`chapter`). `config`
//! reads the options of a book, and `laws` holds what is proved of the
//! rewriting as a whole.

pub mod chapter;
pub mod config;
pub mod dice;
pub mod error;
pub mod grammar;
pub mod laws;
pub mod markdown;
pub mod table;
pub mod token;

use crate::chapter::{
    chapter_result, has_roll_table, plain_result, render_tokens, rewrite_tokens, tokenize,
    tokens_of, transform, Chapter, ChapterView,
};
use crate::config::{config_of, ConfigEntry, ConfigValueView};
use crate::dice::{DieConfig, DieConfigView};
use crate::error::RunError;
use crate::laws::lemma_pass_through_stream;
use crate::markdown::markdown_events;
use vstd::prelude::*;

verus! {

/// The preprocessor, as a value: it has no state of its own.
#[derive(Debug, Clone, Copy, PartialEq, Eq, PartialOrd, Ord, Hash)]
pub struct RollTables;

/// What becomes of the chapters of a book, in their order: each chapter
/// rewritten, or the error of the first chapter that has one.
pub open spec fn chapters_result(chapters: Seq<Seq<char>>, cfg: DieConfigView) -> Result<
    Seq<ChapterView>,
    RunError,
>
    decreases chapters.len(),
{
    if chapters.len() == 0 {
        Ok(Seq::empty())
    } else {
        match chapters_result(chapters.drop_last(), cfg) {
            Ok(earlier) => match chapter_result(chapters.last(), cfg) {
                Ok(chapter) => Ok(earlier.push(chapter)),
                Err(error) => Err(error),
            },
            Err(error) => Err(error),
        }
    }
}

/// What becomes of a book: its options are read first, and an entry that
/// is no option, or an option of the wrong type, ends the run before any
/// chapter is looked at.
pub open spec fn run_result(
    entries: Seq<(Seq<char>, ConfigValueView)>,
    chapters: Seq<Seq<char>>,
) -> Result<Seq<ChapterView>, RunError> {
    match config_of(entries) {
        Ok(cfg) => chapters_result(chapters, cfg),
        Err(error) => Err(error),
    }
}

/// Whether a chapter came out as expected: the expected chapter, or the
/// expected error.
pub open spec fn is_outcome(
    result: Result<Chapter, RunError>,
    expected: Result<ChapterView, RunError>,
) -> bool {
    match expected {
        Ok(chapter) => result is Ok && result.unwrap()@ == chapter,
        Err(error) => result is Err && result->Err_0 == error,
    }
}

impl RollTables {
    /// The name under which a book's configuration addresses this preprocessor.
    pub fn name(&self) -> (name: &'static str)
        ensures
            name@ == "rolltables"@,
    {
        "rolltables"
    }

    /// Rewrites the text of one chapter: the roll tables in it get their
    /// labels, and the whole text is rendered anew.
    ///
    /// A chapter without a roll table is rendered from the very events that
    /// it was parsed into.
    pub fn handle_chapter(&self, content: &str, cfg: &DieConfig) -> (result: Result<
        Chapter,
        RunError,
    >)
        ensures
            is_outcome(result, chapter_result(content@, cfg@)),
            transform(tokens_of(markdown_events(content@)), cfg@) is Some && !has_roll_table(
                tokens_of(markdown_events(content@)),
            ) ==> is_outcome(result, plain_result(content@)),
    {
        let tokens = tokenize(content);
        proof {
            let parsed = tokens_of(markdown_events(content@));
            if transform(parsed, cfg@) is Some && !has_roll_table(parsed) {
                lemma_pass_through_stream(parsed, cfg@);
            }
        }
        let rewritten = match rewrite_tokens(tokens, cfg) {
            Ok(rewritten) => rewritten,
            Err(error) => {
                return Err(error);
            },
        };
        let unusual_dice = rewritten.unusual_dice;
        match render_tokens(rewritten.tokens) {
            Ok(content) => Ok(Chapter { content, unusual_dice }),
            Err(error) => Err(error),
        }
    }

    /// Processes a book: reads its options, then rewrites the text of each
    /// chapter, in order. The first error ends the run, and then no chapter
    /// is returned. The entries are to be the book's options for roll tables
    /// and nothing else: an entry under any other key is an error.
    pub fn run(&self, entries: &Vec<ConfigEntry>, chapters: &Vec<String>) -> (result: Result<
        Vec<Chapter>,
        RunError,
    >)
        ensures
            match run_result(entries.deep_view(), chapters.deep_view()) {
                Ok(expected) => result is Ok && result.unwrap().deep_view() == expected,
                Err(error) => result is Err && result->Err_0 == error,
            },
    {
        let cfg = match DieConfig::from_entries(entries) {
            Ok(cfg) => cfg,
            Err(error) => {
                return Err(error);
            },
        };
        let ghost all = chapters.deep_view();
        let mut rewritten: Vec<Chapter> = Vec::new();
        let mut index: usize = 0;
        assert(rewritten.deep_view() =~= Seq::<ChapterView>::empty());
        while index < chapters.len()
            invariant
                index <= chapters.len(),
                all == chapters.deep_view(),
                config_of(entries.deep_view()) == Ok::<DieConfigView, RunError>(cfg@),
                chapters_result(all.take(index as int), cfg@) == Ok::<Seq<ChapterView>, RunError>(
                    rewritten.deep_view(),
                ),
            decreases chapters.len() - index,
        {
            let ghost earlier = rewritten.deep_view();
            proof {
                assert(all.take(index + 1).drop_last() =~= all.take(index as int));
                assert(all.take(index + 1).last() == chapters[index as int]@);
            }
            let chapter = match self.handle_chapter(chapters[index].as_str(), &cfg) {
                Ok(chapter) => chapter,
                Err(error) => {
                    proof {
                        lemma_first_error(all, cfg@, index + 1);
                    }
                    return Err(error);
                },
            };
            let ghost added = chapter@;
            rewritten.push(chapter);
            assert(rewritten.deep_view() =~= earlier.push(added));
            index = index + 1;
        }
        assert(all.take(chapters.len() as int) =~= all);
        Ok(rewritten)
    }
}

/// An error among the first chapters of a book is the error of the book.
proof fn lemma_first_error(chapters: Seq<Seq<char>>, cfg: DieConfigView, count: int)
    requires
        0 <= count <= chapters.len(),
        chapters_result(chapters.take(count), cfg) is Err,
    ensures
        chapters_result(chapters, cfg) == chapters_result(chapters.take(count), cfg),
    decreases chapters.len() - count,
{
    if count == chapters.len() {
        assert(chapters.take(count) =~= chapters);
    } else {
        assert(chapters.take(count + 1).drop_last() =~= chapters.take(count));
        lemma_first_error(chapters, cfg, count + 1);
    }
}

} // verus!
