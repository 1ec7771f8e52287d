//! The cells that stand for an image: a placeholder character followed by the
//! diacritics of the cell's row and column.
use vstd::prelude::*;
use vstd::utf8::*;

verus! {

/// The character used for unicode placeholder cells.
pub const PLACEHOLDER: char = '\u{10EEEE}';

/// Row and column diacritics of the kitty protocol: combining marks of which
/// the one at index n stands for row or column n.
pub const ROW_COLUMN_DIACRITICS: [char; 297] = [
    '\u{0305}', '\u{030D}', '\u{030E}', '\u{0310}', '\u{0312}', '\u{033D}', '\u{033E}', '\u{033F}',
    '\u{0346}', '\u{034A}', '\u{034B}', '\u{034C}', '\u{0350}', '\u{0351}', '\u{0352}', '\u{0357}',
    '\u{035B}', '\u{0363}', '\u{0364}', '\u{0365}', '\u{0366}', '\u{0367}', '\u{0368}', '\u{0369}',
    '\u{036A}', '\u{036B}', '\u{036C}', '\u{036D}', '\u{036E}', '\u{036F}', '\u{0483}', '\u{0484}',
    '\u{0485}', '\u{0486}', '\u{0487}', '\u{0592}', '\u{0593}', '\u{0594}', '\u{0595}', '\u{0597}',
    '\u{0598}', '\u{0599}', '\u{059C}', '\u{059D}', '\u{059E}', '\u{059F}', '\u{05A0}', '\u{05A1}',
    '\u{05A8}', '\u{05A9}', '\u{05AB}', '\u{05AC}', '\u{05AF}', '\u{05C4}', '\u{0610}', '\u{0611}',
    '\u{0612}', '\u{0613}', '\u{0614}', '\u{0615}', '\u{0616}', '\u{0617}', '\u{0657}', '\u{0658}',
    '\u{0659}', '\u{065A}', '\u{065B}', '\u{065D}', '\u{065E}', '\u{06D6}', '\u{06D7}', '\u{06D8}',
    '\u{06D9}', '\u{06DA}', '\u{06DB}', '\u{06DC}', '\u{06DF}', '\u{06E0}', '\u{06E1}', '\u{06E2}',
    '\u{06E4}', '\u{06E7}', '\u{06E8}', '\u{06EB}', '\u{06EC}', '\u{0730}', '\u{0732}', '\u{0733}',
    '\u{0735}', '\u{0736}', '\u{073A}', '\u{073D}', '\u{073F}', '\u{0740}', '\u{0741}', '\u{0743}',
    '\u{0745}', '\u{0747}', '\u{0749}', '\u{074A}', '\u{07EB}', '\u{07EC}', '\u{07ED}', '\u{07EE}',
    '\u{07EF}', '\u{07F0}', '\u{07F1}', '\u{07F3}', '\u{0816}', '\u{0817}', '\u{0818}', '\u{0819}',
    '\u{081B}', '\u{081C}', '\u{081D}', '\u{081E}', '\u{081F}', '\u{0820}', '\u{0821}', '\u{0822}',
    '\u{0823}', '\u{0825}', '\u{0826}', '\u{0827}', '\u{0829}', '\u{082A}', '\u{082B}', '\u{082C}',
    '\u{082D}', '\u{0951}', '\u{0953}', '\u{0954}', '\u{0F82}', '\u{0F83}', '\u{0F86}', '\u{0F87}',
    '\u{135D}', '\u{135E}', '\u{135F}', '\u{17DD}', '\u{193A}', '\u{1A17}', '\u{1A75}', '\u{1A76}',
    '\u{1A77}', '\u{1A78}', '\u{1A79}', '\u{1A7A}', '\u{1A7B}', '\u{1A7C}', '\u{1B6B}', '\u{1B6D}',
    '\u{1B6E}', '\u{1B6F}', '\u{1B70}', '\u{1B71}', '\u{1B72}', '\u{1B73}', '\u{1CD0}', '\u{1CD1}',
    '\u{1CD2}', '\u{1CDA}', '\u{1CDB}', '\u{1CE0}', '\u{1DC0}', '\u{1DC1}', '\u{1DC3}', '\u{1DC4}',
    '\u{1DC5}', '\u{1DC6}', '\u{1DC7}', '\u{1DC8}', '\u{1DC9}', '\u{1DCB}', '\u{1DCC}', '\u{1DD1}',
    '\u{1DD2}', '\u{1DD3}', '\u{1DD4}', '\u{1DD5}', '\u{1DD6}', '\u{1DD7}', '\u{1DD8}', '\u{1DD9}',
    '\u{1DDA}', '\u{1DDB}', '\u{1DDC}', '\u{1DDD}', '\u{1DDE}', '\u{1DDF}', '\u{1DE0}', '\u{1DE1}',
    '\u{1DE2}', '\u{1DE3}', '\u{1DE4}', '\u{1DE5}', '\u{1DE6}', '\u{1DFE}', '\u{20D0}', '\u{20D1}',
    '\u{20D4}', '\u{20D5}', '\u{20D6}', '\u{20D7}', '\u{20DB}', '\u{20DC}', '\u{20E1}', '\u{20E7}',
    '\u{20E9}', '\u{20F0}', '\u{2CEF}', '\u{2CF0}', '\u{2CF1}', '\u{2DE0}', '\u{2DE1}', '\u{2DE2}',
    '\u{2DE3}', '\u{2DE4}', '\u{2DE5}', '\u{2DE6}', '\u{2DE7}', '\u{2DE8}', '\u{2DE9}', '\u{2DEA}',
    '\u{2DEB}', '\u{2DEC}', '\u{2DED}', '\u{2DEE}', '\u{2DEF}', '\u{2DF0}', '\u{2DF1}', '\u{2DF2}',
    '\u{2DF3}', '\u{2DF4}', '\u{2DF5}', '\u{2DF6}', '\u{2DF7}', '\u{2DF8}', '\u{2DF9}', '\u{2DFA}',
    '\u{2DFB}', '\u{2DFC}', '\u{2DFD}', '\u{2DFE}', '\u{2DFF}', '\u{A66F}', '\u{A67C}', '\u{A67D}',
    '\u{A6F0}', '\u{A6F1}', '\u{A8E0}', '\u{A8E1}', '\u{A8E2}', '\u{A8E3}', '\u{A8E4}', '\u{A8E5}',
    '\u{A8E6}', '\u{A8E7}', '\u{A8E8}', '\u{A8E9}', '\u{A8EA}', '\u{A8EB}', '\u{A8EC}', '\u{A8ED}',
    '\u{A8EE}', '\u{A8EF}', '\u{A8F0}', '\u{A8F1}', '\u{AAB0}', '\u{AAB2}', '\u{AAB3}', '\u{AAB7}',
    '\u{AAB8}', '\u{AABE}', '\u{AABF}', '\u{AAC1}', '\u{FE20}', '\u{FE21}', '\u{FE22}', '\u{FE23}',
    '\u{FE24}', '\u{FE25}', '\u{FE26}', '\u{10A0F}', '\u{10A38}', '\u{1D185}', '\u{1D186}', '\u{1D187}',
    '\u{1D188}', '\u{1D189}', '\u{1D1AA}', '\u{1D1AB}', '\u{1D1AC}', '\u{1D1AD}', '\u{1D242}', '\u{1D243}',
    '\u{1D244}',
];

/// The symbol for the placeholder cell at (row, col) of a placement, or `None`
/// outside of the addressable range.
pub fn placeholder_symbol(row: u16, col: u16) -> (symbol: Option<[char; 3]>)
    ensures
        symbol is Some <==> row < 297 && col < 297,
        symbol matches Some(s) ==> s@ == symbol_text(row as int, col as int),
{
    if row as usize >= ROW_COLUMN_DIACRITICS.len() || col as usize >= ROW_COLUMN_DIACRITICS.len() {
        return None;
    }
    let symbol: [char; 3] = [
        PLACEHOLDER,
        ROW_COLUMN_DIACRITICS[row as usize],
        ROW_COLUMN_DIACRITICS[col as usize],
    ];
    assert(symbol@ =~= symbol_text(row as int, col as int));
    Some(symbol)
}


/// The text of the placeholder cell at (row, col).
pub open spec fn symbol_text(row: int, col: int) -> Seq<char> {
    seq![PLACEHOLDER, ROW_COLUMN_DIACRITICS@[row], ROW_COLUMN_DIACRITICS@[col]]
}

proof fn lemma_neighbours_ascend(i: int)
    requires
        0 <= i < 296,
    ensures
        (ROW_COLUMN_DIACRITICS@[i] as u32) < (ROW_COLUMN_DIACRITICS@[i + 1] as u32),
{
}

/// A later row or column has a diacritic of a higher code point, so no two
/// share one.
pub proof fn law_diacritics_ascend(i: int, j: int)
    requires
        0 <= i < j < 297,
    ensures
        (ROW_COLUMN_DIACRITICS@[i] as u32) < (ROW_COLUMN_DIACRITICS@[j] as u32),
    decreases j,
{
    lemma_neighbours_ascend(j - 1);
    if i < j - 1 {
        law_diacritics_ascend(i, j - 1);
    }
}

/// A placeholder cell names the row and the column that it shows: the symbols
/// of two different cells differ.
pub proof fn law_symbols_name_their_cell(row1: int, col1: int, row2: int, col2: int)
    requires
        0 <= row1 < 297,
        0 <= col1 < 297,
        0 <= row2 < 297,
        0 <= col2 < 297,
        symbol_text(row1, col1) == symbol_text(row2, col2),
    ensures
        row1 == row2,
        col1 == col2,
{
    assert(symbol_text(row1, col1)[1] == symbol_text(row2, col2)[1]);
    assert(symbol_text(row1, col1)[2] == symbol_text(row2, col2)[2]);
    if row1 < row2 {
        law_diacritics_ascend(row1, row2);
    } else if row2 < row1 {
        law_diacritics_ascend(row2, row1);
    }
    if col1 < col2 {
        law_diacritics_ascend(col1, col2);
    } else if col2 < col1 {
        law_diacritics_ascend(col2, col1);
    }
}

proof fn lemma_utf8_size(chars: Seq<char>)
    ensures
        encode_utf8(chars).len() <= 4 * chars.len(),
    decreases chars.len(),
{
    if chars.len() > 0 {
        lemma_utf8_size(chars.drop_first());
    }
}

/// The symbol of a placeholder cell takes at most twelve bytes, well within
/// what a terminal cell holds.
pub proof fn law_symbols_are_cell_sized(row: int, col: int)
    requires
        0 <= row < 297,
        0 <= col < 297,
    ensures
        encode_utf8(symbol_text(row, col)).len() <= 12,
{
    lemma_utf8_size(symbol_text(row, col));
}

/// A symbol is the placeholder character, the diacritic of the row and that of
/// the column.
pub proof fn law_symbols_spell_row_and_column(row: int, col: int)
    ensures
        symbol_text(row, col).len() == 3,
        symbol_text(row, col)[0] == '\u{10EEEE}',
        symbol_text(row, col)[1] == ROW_COLUMN_DIACRITICS@[row],
        symbol_text(row, col)[2] == ROW_COLUMN_DIACRITICS@[col],
{
}

/// The sum of the code points of the first diacritics.
pub open spec fn code_points(n: int) -> int
    decreases n,
{
    if n <= 0 {
        0
    } else {
        code_points(n - 1) + ROW_COLUMN_DIACRITICS@[n - 1] as int
    }
}

/// The table is complete: its code points add up to what those of the protocol
/// add up to, from the first to the last of them.
pub proof fn law_the_diacritics_add_up(i: int)
    requires
        0 <= i < 297,
    ensures
        code_points(297) == 4545336,
        0x305 <= ROW_COLUMN_DIACRITICS@[i] as int <= 0x1D244,
        ROW_COLUMN_DIACRITICS@[0] as int == 0x305,
        ROW_COLUMN_DIACRITICS@[296] as int == 0x1D244,
{
    assert(code_points(27) == 22739) by {
        reveal_with_fuel(code_points, 28);
    }
    assert(code_points(54) == 58526) by {
        reveal_with_fuel(code_points, 28);
    }
    assert(code_points(81) == 103431) by {
        reveal_with_fuel(code_points, 28);
    }
    assert(code_points(108) == 154555) by {
        reveal_with_fuel(code_points, 28);
    }
    assert(code_points(135) == 217340) by {
        reveal_with_fuel(code_points, 28);
    }
    assert(code_points(162) == 395351) by {
        reveal_with_fuel(code_points, 28);
    }
    assert(code_points(189) == 600925) by {
        reveal_with_fuel(code_points, 28);
    }
    assert(code_points(216) == 840497) by {
        reveal_with_fuel(code_points, 28);
    }
    assert(code_points(243) == 1158017) by {
        reveal_with_fuel(code_points, 28);
    }
    assert(code_points(270) == 2260610) by {
        reveal_with_fuel(code_points, 28);
    }
    assert(code_points(297) == 4545336) by {
        reveal_with_fuel(code_points, 28);
    }
    if 0 < i {
        law_diacritics_ascend(0, i);
    }
    if i < 296 {
        law_diacritics_ascend(i, 296);
    }
}

} // verus!
