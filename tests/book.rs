use libxl_book::book::ExcelBook;
use libxl_book::codec::CodecError;

fn units(s: &str) -> Vec<u16> {
    let mut v: Vec<u16> = s.encode_utf16().collect();
    v.push(0);
    v
}

#[test]
fn test_excel() {
    let mut book = ExcelBook::new(true);
    assert!(book.is_xlsx());
    book.add_sheet("Sheet1").unwrap();
    let text = book.write_str("This is a Excel Book中文").unwrap();
    let flag = book.write_bool(true);
    let name = book.sheet_name(0);
    assert_eq!(name, "Sheet1");
    let count = book.sheet_count();
    assert_eq!(count, 1);
    let str = book.read_str(&text).unwrap();
    assert_eq!(str, "This is a Excel Book中文");
    let bool = book.read_bool(flag);
    assert_eq!(bool, true);
}

#[test]
fn fresh_book_has_no_sheets() {
    let book = ExcelBook::new(false);
    assert_eq!(book.sheet_count(), 0);
    assert_eq!(book.active_sheet(), None);
    assert!(!book.is_xlsx());
}

#[test]
fn add_sheet_appends_and_activates() {
    let mut book = ExcelBook::new(true);
    let buf = book.add_sheet("Sheet1").unwrap();
    assert_eq!(buf, units("Sheet1"));
    assert_eq!(book.active_sheet(), Some(0));
    book.add_sheet("Data").unwrap();
    assert_eq!(book.sheet_count(), 2);
    assert_eq!(book.sheet_name(1), "Data");
    assert_eq!(book.active_sheet(), Some(1));
}

#[test]
fn add_sheet_with_interior_nul_leaves_book_unchanged() {
    let mut book = ExcelBook::new(true);
    book.add_sheet("Sheet1").unwrap();
    assert_eq!(book.add_sheet("Bad\0Name"), Err(CodecError::InteriorNul));
    assert_eq!(book.sheet_count(), 1);
    assert_eq!(book.active_sheet(), Some(0));
}

#[test]
fn ordinal_in_range_resolves_to_itself() {
    let mut book = ExcelBook::new(true);
    book.add_sheet("A").unwrap();
    book.add_sheet("B").unwrap();
    book.add_sheet("C").unwrap();
    for i in 0..3 {
        assert_eq!(book.select_sheet(i), i);
        assert_eq!(book.active_sheet(), Some(i));
    }
}

#[test]
fn ordinal_equal_to_count_is_kept_but_selects_nothing() {
    let mut book = ExcelBook::new(true);
    book.add_sheet("A").unwrap();
    book.add_sheet("B").unwrap();
    assert_eq!(book.select_sheet(2), 2);
    assert_eq!(book.active_sheet(), None);
}

#[test]
fn ordinal_out_of_range_resolves_to_first() {
    let mut book = ExcelBook::new(true);
    book.add_sheet("A").unwrap();
    book.add_sheet("B").unwrap();
    assert_eq!(book.select_sheet(3), 0);
    assert_eq!(book.active_sheet(), Some(0));
    book.select_sheet(1);
    assert_eq!(book.select_sheet(-1), 0);
    assert_eq!(book.select_sheet(i32::MIN), 0);
    assert_eq!(book.select_sheet(i32::MAX), 0);
}

#[test]
fn name_resolves_to_first_match() {
    let mut book = ExcelBook::new(true);
    book.add_sheet("A").unwrap();
    book.add_sheet("B").unwrap();
    book.add_sheet("B").unwrap();
    assert_eq!(book.select_sheet("B"), 1);
    assert_eq!(book.active_sheet(), Some(1));
    assert_eq!(book.select_sheet("A"), 0);
}

#[test]
fn name_match_is_case_sensitive_and_unmatched_gives_first() {
    let mut book = ExcelBook::new(true);
    book.add_sheet("A").unwrap();
    book.add_sheet("Sheet").unwrap();
    assert_eq!(book.select_sheet("sheet"), 0);
    assert_eq!(book.select_sheet("Missing"), 0);
}

#[test]
fn name_in_empty_book_resolves_to_first_and_selects_nothing() {
    let mut book = ExcelBook::new(false);
    assert_eq!(book.select_sheet("Sheet1"), 0);
    assert_eq!(book.active_sheet(), None);
    assert_eq!(book.select_sheet(0), 0);
    assert_eq!(book.active_sheet(), None);
}

#[test]
fn bool_round_trip() {
    let book = ExcelBook::new(true);
    assert_eq!(book.write_bool(true), 1);
    assert_eq!(book.write_bool(false), 0);
    assert!(book.read_bool(book.write_bool(true)));
    assert!(!book.read_bool(book.write_bool(false)));
    assert!(book.read_bool(7));
    assert!(book.read_bool(-1));
    assert!(!book.read_bool(0));
}

#[test]
fn text_round_trip_through_cell_buffers() {
    let book = ExcelBook::new(true);
    let buf = book.write_str("Hello").unwrap();
    assert_eq!(buf, units("Hello"));
    assert_eq!(book.read_str(&buf).unwrap(), "Hello");
}

#[test]
fn set_license_encodes_both_strings() {
    let book = ExcelBook::new(true);
    let (n, k) = book.set_license("Name", "SECRET-REDACTED").unwrap();
    assert_eq!(n, units("Name"));
    assert_eq!(k, units("SECRET-REDACTED"));
    assert_eq!(book.set_license("Na\0me", "key"), Err(CodecError::InteriorNul));
    assert_eq!(book.set_license("Name", "k\0ey"), Err(CodecError::InteriorNul));
}

#[test]
fn load_and_save_encode_paths() {
    let book = ExcelBook::new(true);
    assert_eq!(book.save("test.xlsx").unwrap(), units("test.xlsx"));
    assert_eq!(book.load("test.xlsx").unwrap(), units("test.xlsx"));
    assert_eq!(book.save("a\0b"), Err(CodecError::InteriorNul));
}

#[test]
fn loaded_book_takes_the_engine_sheets() {
    let mut book = ExcelBook::new(true);
    book.add_sheet("Old").unwrap();
    book.loaded(vec!["Sheet1".to_string(), "Sheet2".to_string()]);
    assert_eq!(book.sheet_count(), 2);
    assert_eq!(book.sheet_name(0), "Sheet1");
    assert_eq!(book.active_sheet(), Some(0));
    assert_eq!(book.select_sheet("Sheet2"), 1);
    book.loaded(Vec::new());
    assert_eq!(book.sheet_count(), 0);
    assert_eq!(book.active_sheet(), None);
}

#[test]
fn version_is_eight_hex_digits() {
    let book = ExcelBook::new(true);
    assert_eq!(book.version(0x0402_0000), "04020000");
    assert_eq!(book.version(0), "00000000");
    assert_eq!(book.version(0x7fab_cdef), "7fabcdef");
    assert_eq!(book.version(-1), "ffffffff");
}
