use asynthe::note::{Note, NoteContainer, TableError};

#[test]
fn table_reads_rows_in_millihertz() {
    let t = NoteContainer::new("69 440.0 427.474 452.893\n70 466.16376 452.893 479.823\n").unwrap();
    assert_eq!(t.numbers, vec![69, 70]);
    assert_eq!(t.frequencies, vec![440_000, 466_163]);
    assert_eq!(t.before_frequencies, vec![427_474, 452_893]);
    assert_eq!(t.after_frequencies, vec![452_893, 479_823]);
}

#[test]
fn table_accepts_blanks_crlf_and_extra_fields() {
    let t = NoteContainer::new("  0\t8.176 7.9 8.4 extra\r\n127 12543.854 12000 13000.").unwrap();
    assert_eq!(t.numbers, vec![0, 127]);
    assert_eq!(t.frequencies, vec![8_176, 12_543_854]);
    assert_eq!(t.before_frequencies, vec![7_900, 12_000_000]);
    assert_eq!(t.after_frequencies, vec![8_400, 13_000_000]);
}

#[test]
fn empty_table_has_no_rows() {
    let t = NoteContainer::new("").unwrap();
    assert!(t.numbers.is_empty());
}

#[test]
fn short_row_is_rejected() {
    assert_eq!(NoteContainer::new("69 440.0 427.4\n").err(), Some(TableError::MalformedRow));
}

#[test]
fn empty_line_is_rejected() {
    assert_eq!(NoteContainer::new("69 440 430 450\n\n70 466 452 479\n").err(), Some(TableError::MalformedRow));
}

#[test]
fn note_number_above_127_is_rejected() {
    assert_eq!(NoteContainer::new("128 440 430 450\n").err(), Some(TableError::MalformedRow));
}

#[test]
fn non_numeric_frequency_is_rejected() {
    assert_eq!(NoteContainer::new("69 4x0 430 450\n").err(), Some(TableError::MalformedRow));
    assert_eq!(NoteContainer::new("69 .5 430 450\n").err(), Some(TableError::MalformedRow));
    assert_eq!(NoteContainer::new("69 1.2.3 430 450\n").err(), Some(TableError::MalformedRow));
}

#[test]
fn huge_frequency_is_rejected() {
    assert_eq!(
        NoteContainer::new("69 18446744073709552 430 450\n").err(),
        Some(TableError::MalformedRow)
    );
}

#[test]
fn note_names() {
    assert_eq!(Note(69).get_name(), "ラ/A 4");
    assert_eq!(Note(60).get_name(), "ド/C 4");
    assert_eq!(Note(0).get_name(), "ド/C -1");
    assert_eq!(Note(11).get_name(), "シ/B -1");
    assert_eq!(Note(127).get_name(), "ソ/G 9");
    assert_eq!(Note(255).get_name(), "レ♯/D♯ 20");
}

#[test]
fn base_paths() {
    assert_eq!(asynthe::get_base(), "./");
    assert_eq!(asynthe::app_meta::get_base(), "./");
    assert_eq!(asynthe::bundle_base("/Apps/a.app"), "/Apps/a.app/Contents/Resources");
    assert_eq!(asynthe::app_meta::bundle_base("/Apps/a.app"), "/Apps/a.app/Contents/Resources/");
}
