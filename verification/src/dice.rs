//! Which die a table of a given length is rolled with, and the labels that
//! die puts on the table.

use crate::token::{Token, TokenView};
use vstd::arithmetic::div_mod::lemma_fundamental_div_mod_converse;
use vstd::prelude::*;
use vstd::string::StringExecFns;

verus! {

/// How the labels are written, and whether an odd die is worth a warning.
#[derive(Debug)]
pub struct DieConfig {
    /// Stands between the two results in the label of a row rolled with two dice.
    pub separator: String,
    /// Stands between the two sizes in the header of a table rolled with two dice.
    pub head_separator: String,
    /// Whether a single die that no shop sells is reported.
    pub warn_unusual_dice: bool,
}

/// A `DieConfig` with its strings as sequences of characters.
pub struct DieConfigView {
    pub separator: Seq<char>,
    pub head_separator: Seq<char>,
    pub warn_unusual_dice: bool,
}

impl View for DieConfig {
    type V = DieConfigView;

    open spec fn view(&self) -> DieConfigView {
        DieConfigView {
            separator: self.separator@,
            head_separator: self.head_separator@,
            warn_unusual_dice: self.warn_unusual_dice,
        }
    }
}

/// The configuration of a book that sets none of the options.
pub open spec fn default_config() -> DieConfigView {
    DieConfigView { separator: seq!['.'], head_separator: Seq::empty(), warn_unusual_dice: false }
}

impl Default for DieConfig {
    fn default() -> (cfg: DieConfig)
        ensures
            cfg@ == default_config(),
    {
        proof {
            reveal_strlit(".");
            reveal_strlit("");
        }
        let cfg = DieConfig {
            separator: String::from_str("."),
            head_separator: String::from_str(""),
            warn_unusual_dice: false,
        };
        assert(cfg.separator@ =~= seq!['.']);
        assert(cfg.head_separator@ =~= Seq::<char>::empty());
        cfg
    }
}

/// The character of one decimal digit.
pub open spec fn digit(d: nat) -> char {
    if d == 0 {
        '0'
    } else if d == 1 {
        '1'
    } else if d == 2 {
        '2'
    } else if d == 3 {
        '3'
    } else if d == 4 {
        '4'
    } else if d == 5 {
        '5'
    } else if d == 6 {
        '6'
    } else if d == 7 {
        '7'
    } else if d == 8 {
        '8'
    } else {
        '9'
    }
}

/// A number in decimal, without sign or leading zeros.
pub open spec fn decimal(n: nat) -> Seq<char>
    decreases n,
{
    if n < 10 {
        seq![digit(n)]
    } else {
        decimal(n / 10) + seq![digit(n % 10)]
    }
}

/// The two dice that a table of `count` rows is rolled with, first die first,
/// where it is rolled with two.
pub open spec fn combined_dice(count: nat) -> Option<(nat, nat)> {
    if count == 16 {
        Some((4, 4))
    } else if count == 24 {
        Some((6, 4))
    } else if count == 32 {
        Some((8, 4))
    } else if count == 36 {
        Some((6, 6))
    } else if count == 48 {
        Some((8, 6))
    } else if count == 64 {
        Some((8, 8))
    } else {
        None
    }
}

/// The sizes in which a single die is commonly made.
pub open spec fn is_common_die(sides: nat) -> bool {
    sides == 4 || sides == 6 || sides == 8 || sides == 10 || sides == 12 || sides == 20 || sides
        == 100
}

/// Whether a table of `count` rows is rolled with one die of an uncommon size.
pub open spec fn is_unusual(count: nat) -> bool {
    combined_dice(count) is None && !is_common_die(count)
}

/// The text of the header's first cell: `d` and the size of the die, or of
/// both dice around the header separator.
pub open spec fn header_label(count: nat, cfg: DieConfigView) -> Seq<char> {
    match combined_dice(count) {
        Some((first, second)) => seq!['d'] + decimal(first) + cfg.head_separator + decimal(second),
        None => seq!['d'] + decimal(count),
    }
}

/// The text in front of data row `index`, counted from zero: its number from
/// one, or with two dice the result of the first, which changes every
/// `second` rows, and the result of the second around the separator.
pub open spec fn row_label(count: nat, cfg: DieConfigView, index: nat) -> Seq<char> {
    match combined_dice(count) {
        Some((first, second)) => decimal(index / second + 1) + cfg.separator + decimal(
            index % second + 1,
        ),
        None => decimal(index + 1),
    }
}

/// The labels of a table, ready to be put into its first column.
#[derive(Debug)]
pub struct DiceLabels {
    /// The header's first cell.
    pub head: Vec<Token>,
    /// The first cell of each data row, in row order.
    pub rows: Vec<Vec<Token>>,
    /// Whether the caller is to warn of an unusual die.
    pub unusual: bool,
}

fn digit_str(d: usize) -> (s: &'static str)
    requires
        d < 10,
    ensures
        s@ == seq![digit(d as nat)],
{
    proof {
        reveal_strlit("0");
        reveal_strlit("1");
        reveal_strlit("2");
        reveal_strlit("3");
        reveal_strlit("4");
        reveal_strlit("5");
        reveal_strlit("6");
        reveal_strlit("7");
        reveal_strlit("8");
        reveal_strlit("9");
    }
    let s = if d == 0 {
        "0"
    } else if d == 1 {
        "1"
    } else if d == 2 {
        "2"
    } else if d == 3 {
        "3"
    } else if d == 4 {
        "4"
    } else if d == 5 {
        "5"
    } else if d == 6 {
        "6"
    } else if d == 7 {
        "7"
    } else if d == 8 {
        "8"
    } else {
        "9"
    };
    assert(s@ =~= seq![digit(d as nat)]);
    s
}

/// Writes a number in decimal.
pub fn decimal_string(n: usize) -> (s: String)
    ensures
        s@ == decimal(n as nat),
    decreases n,
{
    if n < 10 {
        String::from_str(digit_str(n))
    } else {
        decimal_string(n / 10).concat(digit_str(n % 10))
    }
}

/// A cell that holds one text.
pub fn text_cell(text: String) -> (cell: Vec<Token>)
    ensures
        cell.deep_view() == seq![TokenView::Text(text@)],
{
    let mut cell: Vec<Token> = Vec::new();
    cell.push(Token::Text(text));
    assert(cell.deep_view() =~= seq![TokenView::Text(text@)]);
    cell
}

/// The two dice of a table of `count` rows, where it has two.
pub fn dice_pair(count: usize) -> (pair: Option<(usize, usize)>)
    ensures
        match pair {
            Some((first, second)) => combined_dice(count as nat) == Some(
                (first as nat, second as nat),
            ),
            None => combined_dice(count as nat) is None,
        },
{
    if count == 16 {
        Some((4, 4))
    } else if count == 24 {
        Some((6, 4))
    } else if count == 32 {
        Some((8, 4))
    } else if count == 36 {
        Some((6, 6))
    } else if count == 48 {
        Some((8, 6))
    } else if count == 64 {
        Some((8, 8))
    } else {
        None
    }
}

/// In a table rolled with two dice the rows run through the second die for
/// each result of the first: the row of results `first_roll` and
/// `second_roll` is row `(first_roll - 1) * second + (second_roll - 1)`, and
/// the table has exactly one row for each pair of results.
pub proof fn lemma_die_major_order(
    count: nat,
    cfg: DieConfigView,
    first_roll: nat,
    second_roll: nat,
)
    requires
        combined_dice(count) is Some,
        1 <= first_roll <= combined_dice(count).unwrap().0,
        1 <= second_roll <= combined_dice(count).unwrap().1,
    ensures
        combined_dice(count).unwrap().0 * combined_dice(count).unwrap().1 == count,
        (first_roll - 1) * combined_dice(count).unwrap().1 + (second_roll - 1) < count,
        row_label(
            count,
            cfg,
            ((first_roll - 1) * combined_dice(count).unwrap().1 + (second_roll - 1)) as nat,
        ) == decimal(first_roll) + cfg.separator + decimal(second_roll),
{
    let first = combined_dice(count).unwrap().0;
    let second = combined_dice(count).unwrap().1;
    let index = (first_roll - 1) * second + (second_roll - 1);
    assert((first_roll - 1) * second <= (first - 1) * second) by (nonlinear_arith)
        requires
            first_roll <= first,
            second >= 0,
    ;
    assert((first - 1) * second + second == first * second) by (nonlinear_arith);
    lemma_fundamental_div_mod_converse(
        index,
        second as int,
        first_roll - 1,
        second_roll - 1,
    );
}

/// The sentence that warns of a single die of an uncommon size.
pub open spec fn unusual_dice_warning(sides: nat) -> Seq<char> {
    "Warning: Roll table created with unusual dice: d"@ + decimal(sides)
}

/// Writes the warning of a single die of an uncommon size, for the caller to
/// report.
pub fn warn_unusual_dice(sides: usize) -> (text: String)
    ensures
        text@ == unusual_dice_warning(sides as nat),
{
    String::from_str("Warning: Roll table created with unusual dice: d").concat(
        decimal_string(sides).as_str(),
    )
}

/// The generator: the labels for a table of `count` data rows.
///
/// Tables of 16, 24, 32, 36, 48 and 64 rows are rolled with two dice, every
/// other table with one die of as many sides as it has rows.
pub fn dice_labels(count: usize, cfg: &DieConfig) -> (labels: DiceLabels)
    ensures
        labels.head.deep_view() == seq![TokenView::Text(header_label(count as nat, cfg@))],
        labels.rows.len() == count,
        forall|i: int|
            0 <= i < count ==> #[trigger] labels.rows[i].deep_view() == seq![
                TokenView::Text(row_label(count as nat, cfg@, i as nat)),
            ],
        labels.unusual == (cfg.warn_unusual_dice && is_unusual(count as nat)),
{
    let mut rows: Vec<Vec<Token>> = Vec::new();
    proof {
        reveal_strlit("d");
        assert("d"@ =~= seq!['d']);
    }
    match dice_pair(count) {
        Some((first, second)) => {
            let head = String::from_str("d").concat(decimal_string(first).as_str()).concat(
                cfg.head_separator.as_str(),
            ).concat(decimal_string(second).as_str());
            let mut first_roll: usize = 1;
            while first_roll <= first
                invariant
                    combined_dice(count as nat) == Some((first as nat, second as nat)),
                    1 <= first_roll <= first + 1,
                    rows.len() == (first_roll - 1) * second,
                    forall|i: int|
                        0 <= i < rows.len() ==> #[trigger] rows[i].deep_view() == seq![
                            TokenView::Text(row_label(count as nat, cfg@, i as nat)),
                        ],
                decreases first + 1 - first_roll,
            {
                let mut second_roll: usize = 1;
                while second_roll <= second
                    invariant
                        combined_dice(count as nat) == Some((first as nat, second as nat)),
                        1 <= first_roll <= first,
                        1 <= second_roll <= second + 1,
                        rows.len() == (first_roll - 1) * second + (second_roll - 1),
                        forall|i: int|
                            0 <= i < rows.len() ==> #[trigger] rows[i].deep_view() == seq![
                                TokenView::Text(row_label(count as nat, cfg@, i as nat)),
                            ],
                    decreases second + 1 - second_roll,
                {
                    let label = decimal_string(first_roll).concat(cfg.separator.as_str()).concat(
                        decimal_string(second_roll).as_str(),
                    );
                    proof {
                        lemma_die_major_order(
                            count as nat,
                            cfg@,
                            first_roll as nat,
                            second_roll as nat,
                        );
                    }
                    rows.push(text_cell(label));
                    second_roll = second_roll + 1;
                }
                assert((first_roll - 1) * second + second == first_roll * second)
                    by (nonlinear_arith);
                first_roll = first_roll + 1;
            }
            proof {
                lemma_die_major_order(count as nat, cfg@, 1, 1);
            }
            DiceLabels { head: text_cell(head), rows, unusual: false }
        },
        None => {
            let head = String::from_str("d").concat(decimal_string(count).as_str());
            let mut index: usize = 0;
            while index < count
                invariant
                    combined_dice(count as nat) is None,
                    index <= count,
                    rows.len() == index,
                    forall|i: int|
                        0 <= i < rows.len() ==> #[trigger] rows[i].deep_view() == seq![
                            TokenView::Text(row_label(count as nat, cfg@, i as nat)),
                        ],
                decreases count - index,
            {
                rows.push(text_cell(decimal_string(index + 1)));
                index = index + 1;
            }
            let common = count == 4 || count == 6 || count == 8 || count == 10 || count == 12
                || count == 20 || count == 100;
            DiceLabels { head: text_cell(head), rows, unusual: cfg.warn_unusual_dice && !common }
        },
    }
}

} // verus!
