use accepted::edit_core::buffer::RopeyCoreBuffer;
use accepted::edit_core::{Core, Cursor, CursorBound};

#[test]
fn test_operation_insert_char() {
    let mut core = Core::<RopeyCoreBuffer>::from_reader("".as_bytes()).unwrap();

    core.insert('A');
    assert_eq!(core.get_string(), "A".to_string());
    assert_eq!(core.cursor(), Cursor { row: 0, col: 1 });
    core.commit();
    core.undo();
    assert_eq!(core.get_string(), "".to_string());

    core.insert('\n');
    assert_eq!(core.cursor(), Cursor { row: 1, col: 0 });
    assert_eq!(core.get_string(), "\n".to_string());
    assert_eq!(core.len_lines(), 2);
}

#[test]
fn test_operation_delete_range() {
    let mut core = Core::<RopeyCoreBuffer>::from_reader("12345678".as_bytes()).unwrap();

    core.delete_range((
        CursorBound::Included(Cursor { row: 0, col: 1 }),
        CursorBound::Included(Cursor { row: 0, col: 2 }),
    ));
    assert_eq!(core.get_string(), "145678".to_string());
    assert_eq!(core.cursor(), Cursor { row: 0, col: 1 });
    core.commit();
    core.undo();
    assert_eq!(core.get_string(), "12345678");
    assert_eq!(core.cursor(), Cursor { row: 0, col: 1 });

    let mut core = Core::<RopeyCoreBuffer>::from_reader("123\n".as_bytes()).unwrap();

    core.delete_range((
        CursorBound::Included(Cursor { row: 0, col: 0 }),
        CursorBound::Included(Cursor { row: 0, col: 3 }),
    ));
    assert_eq!(core.get_string(), "".to_string());
    assert_eq!(core.cursor(), Cursor { row: 0, col: 0 });
    core.commit();
    core.undo();
    assert_eq!(core.get_string(), "123\n");
    assert_eq!(core.cursor(), Cursor { row: 0, col: 0 });

    let mut core = Core::<RopeyCoreBuffer>::from_reader("123\n456".as_bytes()).unwrap();

    core.delete_range((
        CursorBound::Included(Cursor { row: 0, col: 3 }),
        CursorBound::Included(Cursor { row: 0, col: 3 }),
    ));
    assert_eq!(core.get_string(), "123456".to_string());
    assert_eq!(core.cursor(), Cursor { row: 0, col: 3 });
    core.commit();
    core.undo();
    assert_eq!(core.get_string(), "123\n456");
    assert_eq!(core.cursor(), Cursor { row: 0, col: 3 });
}

#[test]
fn test_operation_set() {
    let mut core = Core::<RopeyCoreBuffer>::from_reader("123456".as_bytes()).unwrap();

    core.set_cursor(Cursor { row: 0, col: 4 });
    core.set_string("abc".to_string(), false);

    assert_eq!(core.get_string(), "abc".to_string());
    assert_eq!(core.cursor(), Cursor { col: 3, row: 0 });

    core.commit();
    core.undo();

    assert_eq!(core.get_string(), "123456".to_string());
}

#[test]
fn redo_after_undo_brings_the_edit_back() {
    let mut core = Core::<RopeyCoreBuffer>::from_reader("ab".as_bytes()).unwrap();
    core.insert('x');
    core.commit();
    core.undo();
    assert_eq!(core.get_string(), "ab");
    core.redo();
    assert_eq!(core.get_string(), "xab");
    core.undo();
    assert_eq!(core.get_string(), "ab");
}

#[test]
fn an_edit_clears_redo() {
    let mut core = Core::<RopeyCoreBuffer>::from_reader("ab".as_bytes()).unwrap();
    core.insert('x');
    core.commit();
    core.undo();
    core.insert('y');
    core.commit();
    core.redo();
    assert_eq!(core.get_string(), "yab");
}

#[test]
fn invalid_utf8_is_refused() {
    assert!(Core::<RopeyCoreBuffer>::from_reader(&[0xff, 0xfe]).is_none());
}

#[test]
fn word_motions() {
    let mut core = Core::<RopeyCoreBuffer>::from_reader("123 456 789".as_bytes()).unwrap();
    core.w();
    assert_eq!(core.cursor(), Cursor { row: 0, col: 4 });
    core.e();
    assert_eq!(core.cursor(), Cursor { row: 0, col: 6 });
    core.b();
    assert_eq!(core.cursor(), Cursor { row: 0, col: 4 });
}

#[test]
fn undo_and_redo_place_the_cursor() {
    let mut core = Core::<RopeyCoreBuffer>::from_reader("xy\nz".as_bytes()).unwrap();
    core.set_cursor(Cursor { row: 0, col: 1 });
    core.insert('a');
    core.insert('b');
    core.commit();
    core.set_cursor(Cursor { row: 1, col: 0 });
    core.undo();
    assert_eq!(core.get_string(), "xy\nz");
    assert_eq!(core.cursor(), Cursor { row: 0, col: 1 });
    core.set_cursor(Cursor { row: 1, col: 1 });
    core.redo();
    assert_eq!(core.get_string(), "xaby\nz");
    assert_eq!(core.cursor(), Cursor { row: 0, col: 3 });

    core.delete_range((
        CursorBound::Included(Cursor { row: 0, col: 2 }),
        CursorBound::Excluded(Cursor { row: 1, col: 0 }),
    ));
    core.commit();
    core.set_cursor(Cursor { row: 0, col: 0 });
    core.undo();
    assert_eq!(core.get_string(), "xaby\nz");
    assert_eq!(core.cursor(), Cursor { row: 0, col: 2 });

    core.set_string("abcdef".to_string(), false);
    core.commit();
    core.set_cursor(Cursor { row: 0, col: 6 });
    core.undo();
    assert_eq!(core.get_string(), "xaby\nz");
    assert_eq!(core.cursor(), Cursor { row: 0, col: 4 });
}
