//! The text of a Unicode placeholder cell: the placeholder character, then
//! combining marks that number the image row and column the cell shows.
use vstd::prelude::*;

verus! {

/// The placeholder character that the terminal replaces by a part of an
/// image.
pub open spec fn placeholder_char() -> char {
    '\u{10EEEE}'
}

/// The combining marks that number rows and columns, from the start of
/// kitty's `rowcolumn-diacritics.txt`: mark `i` stands for number `i`.
pub open spec fn diacritic_table() -> Seq<char> {
    seq![
        '\u{0305}', '\u{030D}', '\u{030E}', '\u{0310}', '\u{0312}', '\u{033D}', '\u{033E}',
        '\u{033F}', '\u{0346}', '\u{034A}', '\u{034B}', '\u{034C}', '\u{0350}', '\u{0351}',
        '\u{0352}', '\u{0357}', '\u{035B}', '\u{0363}', '\u{0364}', '\u{0365}', '\u{0366}',
        '\u{0367}', '\u{0368}', '\u{0369}', '\u{036A}', '\u{036B}', '\u{036C}', '\u{036D}',
        '\u{036E}', '\u{036F}',
    ]
}

/// The mark for `index`, as a sequence: empty past the table, where the
/// terminal takes the number from the cell to the left.
pub open spec fn diacritic_seq(index: u16) -> Seq<char> {
    if index < diacritic_table().len() {
        seq![diacritic_table()[index as int]]
    } else {
        Seq::empty()
    }
}

/// The mark for row or column `index`; none past the table.
pub fn diacritic_for_index(index: u16) -> (r: Option<char>)
    ensures
        r == if index < diacritic_table().len() {
            Some(diacritic_table()[index as int])
        } else {
            None
        },
{
    let table: [char; 30] = [
        '\u{0305}', '\u{030D}', '\u{030E}', '\u{0310}', '\u{0312}', '\u{033D}', '\u{033E}',
        '\u{033F}', '\u{0346}', '\u{034A}', '\u{034B}', '\u{034C}', '\u{0350}', '\u{0351}',
        '\u{0352}', '\u{0357}', '\u{035B}', '\u{0363}', '\u{0364}', '\u{0365}', '\u{0366}',
        '\u{0367}', '\u{0368}', '\u{0369}', '\u{036A}', '\u{036B}', '\u{036C}', '\u{036D}',
        '\u{036E}', '\u{036F}',
    ];
    assert(table@ =~= diacritic_table());
    if (index as usize) < table.len() {
        Some(table[index as usize])
    } else {
        None
    }
}

/// The text of the placeholder cell that shows image row `row` and column
/// `col`: the placeholder character, the row's mark, the column's mark.
pub fn placeholder_symbol(row: u16, col: u16) -> (s: Vec<char>)
    ensures
        s@ == seq![placeholder_char()] + diacritic_seq(row) + diacritic_seq(col),
{
    let mut s: Vec<char> = Vec::new();
    s.push('\u{10EEEE}');
    match diacritic_for_index(row) {
        Some(c) => s.push(c),
        None => {},
    }
    match diacritic_for_index(col) {
        Some(c) => s.push(c),
        None => {},
    }
    assert(s@ =~= seq![placeholder_char()] + diacritic_seq(row) + diacritic_seq(col));
    s
}

/// Kitty's marks are listed in increasing code point order, so a larger row
/// or column number has a larger mark: no two numbers share a mark, and the
/// marks keep the numbers' order.
pub proof fn lemma_diacritics_increase(i: int, j: int)
    requires
        0 <= i < j < diacritic_table().len(),
    ensures
        (diacritic_table()[i] as u32) < (diacritic_table()[j] as u32),
    decreases j - i,
{
    lemma_diacritics_step();
    if j > i + 1 {
        lemma_diacritics_increase(i, j - 1);
    }
}

/// The code points at the start of kitty's `rowcolumn-diacritics.txt`, in
/// the file's order.
pub open spec fn rowcolumn_diacritic_codes() -> Seq<u32> {
    seq![
        0x0305, 0x030D, 0x030E, 0x0310, 0x0312, 0x033D, 0x033E, 0x033F, 0x0346, 0x034A, 0x034B,
        0x034C, 0x0350, 0x0351, 0x0352, 0x0357, 0x035B, 0x0363, 0x0364, 0x0365, 0x0366, 0x0367,
        0x0368, 0x0369, 0x036A, 0x036B, 0x036C, 0x036D, 0x036E, 0x036F,
    ]
}

/// The mark for number `k` is the `k`-th code point of kitty's list, and
/// each mark comes before the next in code point order.
pub proof fn lemma_diacritics_step()
    ensures
        diacritic_table().len() == 30,
        forall|k: int|
            0 <= k < 30 ==> (#[trigger] diacritic_table()[k] as u32)
                == rowcolumn_diacritic_codes()[k],
        forall|k: int|
            0 <= k < 29 ==> (#[trigger] diacritic_table()[k] as u32) < (diacritic_table()[k
                + 1] as u32),
{
    let t = diacritic_table();
    let codes = rowcolumn_diacritic_codes();
    assert(t.len() == 30);
    assert forall|k: int| 0 <= k < 30 implies (#[trigger] t[k] as u32) == codes[k] by {
        assert(t[k] as u32 == codes[k]);
    }
    assert forall|k: int| 0 <= k < 29 implies (#[trigger] t[k] as u32) < (t[k + 1] as u32) by {
        assert(t[k] as u32 == codes[k]);
        assert(t[k + 1] as u32 == codes[k + 1]);
    }
}

} // verus!
