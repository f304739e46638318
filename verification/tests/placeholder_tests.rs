use stiv::diacritics::{diacritic_for_index, placeholder_symbol};

#[test]
fn diacritics_number_rows_and_columns() {
    assert_eq!(diacritic_for_index(0), Some('\u{0305}'));
    assert_eq!(diacritic_for_index(1), Some('\u{030D}'));
    assert_eq!(diacritic_for_index(29), Some('\u{036F}'));
    assert_eq!(diacritic_for_index(30), None);
    assert_eq!(diacritic_for_index(u16::MAX), None);
}

#[test]
fn placeholder_symbol_holds_row_then_column() {
    let s: String = placeholder_symbol(2, 0).into_iter().collect();
    assert_eq!(s, "\u{10EEEE}\u{030E}\u{0305}");
    assert_eq!(placeholder_symbol(40, 1), vec!['\u{10EEEE}', '\u{030D}']);
    assert_eq!(placeholder_symbol(40, 40), vec!['\u{10EEEE}']);
}
