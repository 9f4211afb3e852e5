use mdbook_rolltables::chapter::{render_tokens, rewrite_table, rewrite_tokens, tokenize};
use mdbook_rolltables::dice::DieConfig;
use mdbook_rolltables::error::RunError;
use mdbook_rolltables::table::MarkdownTable;
use mdbook_rolltables::token::Token;
use mdbook_rolltables::RollTables;
use pulldown_cmark::{Alignment, Event, Tag, TagEnd};
use std::collections::VecDeque;

fn warning() -> DieConfig {
    DieConfig { separator: ".".to_string(), head_separator: "".to_string(), warn_unusual_dice: true }
}

fn text(value: &str) -> Token {
    Token::Text(value.to_string())
}

fn paragraph(value: &str) -> Vec<Token> {
    vec![
        Token::Other(Event::Start(Tag::Paragraph)),
        text(value),
        Token::Other(Event::End(TagEnd::Paragraph)),
    ]
}

fn table(d: &str, names: &[&str]) -> Vec<Token> {
    labelled(d, names, &vec![""; names.len()])
}

fn labelled(d: &str, names: &[&str], labels: &[&str]) -> Vec<Token> {
    let mut tokens = vec![
        Token::TableStart(vec![Alignment::Center, Alignment::Left]),
        Token::HeadStart,
        Token::CellStart,
        text(d),
        Token::CellEnd,
        Token::CellStart,
        text("Class"),
        Token::CellEnd,
        Token::HeadEnd,
    ];
    for (name, label) in names.iter().zip(labels) {
        tokens.push(Token::RowStart);
        tokens.push(Token::CellStart);
        if !label.is_empty() {
            tokens.push(text(label));
        }
        tokens.push(Token::CellEnd);
        tokens.push(Token::CellStart);
        tokens.push(text(name));
        tokens.push(Token::CellEnd);
        tokens.push(Token::RowEnd);
    }
    tokens.push(Token::TableEnd);
    tokens
}

fn stream(parts: Vec<Vec<Token>>) -> VecDeque<Token> {
    parts.into_iter().flatten().collect()
}

const SEVEN: [&str; 7] = ["a", "b", "c", "d", "e", "f", "g"];

const CLASSES: &str = "|d|Class|\n|:-:|:----|\n||Warrior|\n||Thief|\n||Wizard|";

#[test]
fn a_roll_table_gets_its_labels() {
    let given = stream(vec![table("d", &["Warrior", "Thief", "Wizard", "Bard"])]);
    let out = rewrite_tokens(given, &DieConfig::default()).unwrap();
    assert_eq!(
        out.tokens,
        labelled("d4", &["Warrior", "Thief", "Wizard", "Bard"], &["1", "2", "3", "4"])
    );
    assert!(out.unusual_dice.is_empty());
}

#[test]
fn another_table_passes_through() {
    for d in ["D", "d6", "Roll", ""] {
        let given = stream(vec![paragraph("x"), table(d, &["Warrior", "Thief"]), paragraph("y")]);
        let out = rewrite_tokens(given, &warning()).unwrap();
        let same = stream(vec![paragraph("x"), table(d, &["Warrior", "Thief"]), paragraph("y")]);
        assert_eq!(out.tokens, Vec::from(same));
        assert!(out.unusual_dice.is_empty());
    }
    let filled = || stream(vec![labelled("d", &["Warrior", "Thief"], &["", "x"])]);
    let out = rewrite_tokens(filled(), &warning()).unwrap();
    assert_eq!(out.tokens, Vec::from(filled()));
    assert!(out.unusual_dice.is_empty());
}

#[test]
fn tokens_outside_tables_pass_through() {
    let given = || {
        stream(vec![
            paragraph("before"),
            vec![Token::TableEnd, Token::CellStart, Token::RowEnd, text("d"), Token::HeadStart],
            paragraph("after"),
        ])
    };
    let out = rewrite_tokens(given(), &DieConfig::default()).unwrap();
    assert_eq!(out.tokens, Vec::from(given()));
    let nothing = rewrite_tokens(VecDeque::new(), &DieConfig::default()).unwrap();
    assert!(nothing.tokens.is_empty());
    assert!(nothing.unusual_dice.is_empty());
}

#[test]
fn seven_rows_warn_exactly_once() {
    let given = stream(vec![paragraph("x"), table("d", &SEVEN), paragraph("y")]);
    let out = rewrite_tokens(given, &warning()).unwrap();
    let expected = stream(vec![
        paragraph("x"),
        labelled("d7", &SEVEN, &["1", "2", "3", "4", "5", "6", "7"]),
        paragraph("y"),
    ]);
    assert_eq!(out.tokens, Vec::from(expected));
    assert_eq!(out.unusual_dice, vec![7]);
}

#[test]
fn seven_rows_do_not_warn_unasked() {
    let given = stream(vec![table("d", &SEVEN)]);
    let out = rewrite_tokens(given, &DieConfig::default()).unwrap();
    assert_eq!(out.tokens, labelled("d7", &SEVEN, &["1", "2", "3", "4", "5", "6", "7"]));
    assert!(out.unusual_dice.is_empty());
}

#[test]
fn warnings_come_in_the_order_of_the_tables() {
    let given = stream(vec![
        table("d", &["a", "b", "c"]),
        table("d", &["a", "b", "c", "d"]),
        table("x", &SEVEN),
        table("d", &SEVEN),
        table("d", &[]),
    ]);
    let out = rewrite_tokens(given, &warning()).unwrap();
    assert_eq!(out.unusual_dice, vec![3, 7, 0]);
}

#[test]
fn rewriting_twice_changes_nothing() {
    let given = stream(vec![
        paragraph("x"),
        table("d", &["Warrior", "Thief", "Wizard"]),
        table("Roll", &["Warrior"]),
        table("d", &SEVEN),
    ]);
    let once = rewrite_tokens(given, &warning()).unwrap();
    assert_eq!(once.unusual_dice, vec![3, 7]);
    let expected = stream(vec![
        paragraph("x"),
        labelled("d3", &["Warrior", "Thief", "Wizard"], &["1", "2", "3"]),
        table("Roll", &["Warrior"]),
        labelled("d7", &SEVEN, &["1", "2", "3", "4", "5", "6", "7"]),
    ]);
    assert_eq!(once.tokens, Vec::from(expected));
    let twice = rewrite_tokens(once.tokens.into(), &warning()).unwrap();
    let expected = stream(vec![
        paragraph("x"),
        labelled("d3", &["Warrior", "Thief", "Wizard"], &["1", "2", "3"]),
        table("Roll", &["Warrior"]),
        labelled("d7", &SEVEN, &["1", "2", "3", "4", "5", "6", "7"]),
    ]);
    assert_eq!(twice.tokens, Vec::from(expected));
    assert!(twice.unusual_dice.is_empty());
}

#[test]
fn a_malformed_table_ends_the_rewriting() {
    let cut = stream(vec![paragraph("x"), vec![Token::TableStart(vec![]), Token::HeadStart]]);
    assert_eq!(rewrite_tokens(cut, &DieConfig::default()).unwrap_err(), RunError::MalformedTableStream);
    let bare = stream(vec![vec![Token::TableStart(vec![]), text("d"), Token::TableEnd]]);
    assert_eq!(rewrite_tokens(bare, &DieConfig::default()).unwrap_err(), RunError::MalformedTableStream);
    let later = stream(vec![table("d", &["a"]), vec![Token::TableStart(vec![]), Token::TableEnd]]);
    assert_eq!(rewrite_tokens(later, &DieConfig::default()).unwrap_err(), RunError::MalformedTableStream);
}

#[test]
fn one_table_is_rewritten_in_place() {
    let mut queue: VecDeque<Token> = table("d", &SEVEN).into();
    let start = queue.pop_front();
    assert_eq!(start, Some(Token::TableStart(vec![Alignment::Center, Alignment::Left])));
    let mut read = MarkdownTable::new(vec![Alignment::Center, Alignment::Left], &mut queue).unwrap();
    assert_eq!(rewrite_table(&mut read, &warning()), Some(7));
    assert_eq!(read.into_tokens(), labelled("d7", &SEVEN, &["1", "2", "3", "4", "5", "6", "7"]));

    let mut queue: VecDeque<Token> = table("x", &SEVEN).into();
    queue.pop_front();
    let mut read = MarkdownTable::new(vec![Alignment::Center, Alignment::Left], &mut queue).unwrap();
    assert_eq!(rewrite_table(&mut read, &warning()), None);
    assert_eq!(read.into_tokens(), table("x", &SEVEN));
}

#[test]
fn sixteen_rows_in_a_stream() {
    let names = ["n"; 16];
    let given = stream(vec![table("d", &names)]);
    let out = rewrite_tokens(given, &warning()).unwrap();
    let labels = [
        "1.1", "1.2", "1.3", "1.4", "2.1", "2.2", "2.3", "2.4", "3.1", "3.2", "3.3", "3.4", "4.1",
        "4.2", "4.3", "4.4",
    ];
    assert_eq!(out.tokens, labelled("d44", &names, &labels));
    assert!(out.unusual_dice.is_empty());
}

#[test]
fn a_text_is_parsed_into_tokens() {
    let tokens = tokenize(CLASSES);
    assert_eq!(tokens, VecDeque::from(table("d", &["Warrior", "Thief", "Wizard"])));
    let tokens = tokenize("some *text*");
    assert_eq!(
        tokens,
        VecDeque::from(vec![
            Token::Other(Event::Start(Tag::Paragraph)),
            text("some "),
            Token::Other(Event::Start(Tag::Emphasis)),
            text("text"),
            Token::Other(Event::End(TagEnd::Emphasis)),
            Token::Other(Event::End(TagEnd::Paragraph)),
        ])
    );
    assert!(tokenize("").is_empty());
}

#[test]
fn tokens_are_rendered_as_text() {
    assert_eq!(render_tokens(table("d", &["Warrior", "Thief", "Wizard"])).unwrap(), CLASSES);
    assert_eq!(render_tokens(paragraph("some text")).unwrap(), "some text");
    assert_eq!(render_tokens(vec![]).unwrap(), "");
}

#[test]
fn tokens_out_of_order_cannot_be_rendered() {
    assert_eq!(render_tokens(vec![Token::TableEnd]).unwrap_err(), RunError::Unrenderable);
    assert_eq!(render_tokens(vec![Token::HeadStart]).unwrap_err(), RunError::Unrenderable);
}

#[test]
fn a_chapter_with_a_roll_table() {
    let text = format!("# Classes\n\nRoll a die.\n\n{}\n\nDone.", CLASSES);
    let chapter = RollTables.handle_chapter(&text, &warning()).unwrap();
    assert_eq!(
        chapter.content,
        "# Classes\n\nRoll a die.\n\n|d3|Class|\n|:-:|:----|\n|1|Warrior|\n|2|Thief|\n|3|Wizard|\n\nDone."
    );
    assert_eq!(chapter.unusual_dice, vec![3]);
}

#[test]
fn a_chapter_is_rewritten_once() {
    let once = RollTables.handle_chapter(CLASSES, &DieConfig::default()).unwrap();
    assert_eq!(once.content, "|d3|Class|\n|:-:|:----|\n|1|Warrior|\n|2|Thief|\n|3|Wizard|");
    assert!(once.unusual_dice.is_empty());
    let twice = RollTables.handle_chapter(&once.content, &warning()).unwrap();
    assert_eq!(twice.content, once.content);
    assert!(twice.unusual_dice.is_empty());
}

#[test]
fn a_chapter_without_roll_table_keeps_its_tables() {
    let text = "|Roll|Class|\n|:--:|:----|\n|1|Warrior|\n|2|Thief|";
    let chapter = RollTables.handle_chapter(text, &warning()).unwrap();
    assert_eq!(chapter.content, text);
    assert!(chapter.unusual_dice.is_empty());
}

#[test]
fn a_chapter_without_tables_is_rendered_as_it_was_parsed() {
    for text in ["", "some *text*", "# Title\n\nA paragraph with `code` and a [link](http://example.com).", "* one\n* two"] {
        let chapter = RollTables.handle_chapter(text, &warning()).unwrap();
        assert_eq!(chapter.content, text);
        assert!(chapter.unusual_dice.is_empty());
    }
}

#[test]
fn content_inside_cells_is_kept() {
    let text = "|d|Class|\n|-|-----|\n||*Warrior*|\n||`Thief`|";
    let chapter = RollTables.handle_chapter(text, &warning()).unwrap();
    assert_eq!(chapter.content, "|d2|Class|\n|--|-----|\n|1|*Warrior*|\n|2|`Thief`|");
    assert_eq!(chapter.unusual_dice, vec![2]);
}
