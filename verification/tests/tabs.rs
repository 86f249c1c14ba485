use accepted::buffer::Buffer;
use accepted::buffer_mode::TabOperation;
use accepted::buffer_tab::{tab_label_chars, BufferTab, TabLine};
use accepted::draw::styles;
use accepted::edit_core::buffer::RopeyCoreBuffer;

fn label(i: usize, title: &str) -> String {
    tab_label_chars(i, &title.chars().collect()).into_iter().collect()
}

fn bar_text(line: &TabLine) -> String {
    line.buf
        .iter()
        .map(|c| match c {
            Some((c, _)) => *c,
            None => '.',
        })
        .collect()
}

#[test]
fn tab_label_pads_short_titles() {
    assert_eq!(label(0, "*"), " 1 *    ");
    assert_eq!(label(2, "abc"), " 3 abc  ");
    assert_eq!(label(9, "abcde"), " 10 abcde");
}

#[test]
fn tab_label_cuts_long_titles() {
    assert_eq!(label(0, "abcdefg"), " 1 abcde\u{2026}");
    // A wide char that no longer fits is left out; a narrow one after it
    // still goes in.
    assert_eq!(label(0, "abcd\u{4e2d}e"), " 1 abcde\u{2026}");
}

#[test]
fn tab_line_put_stops_before_last_column() {
    let mut line = TabLine::new(4);
    line.puts("abcdef", styles::default(), Some(1));
    assert_eq!(bar_text(&line), "abc.");
    assert_eq!(line.cursor, 3);
    assert_eq!(line.tab, vec![Some(1), Some(1), Some(1), None]);
}

#[test]
fn tab_line_wide_char_takes_two_columns() {
    let mut line = TabLine::new(6);
    line.put('\u{4e2d}', styles::default(), Some(0));
    line.put('x', styles::default(), Some(2));
    assert_eq!(line.cursor, 3);
    assert_eq!(line.tab, vec![Some(0), Some(0), Some(2), None, None, None]);
    assert_eq!(bar_text(&line), "\u{4e2d}.x...");
}

#[test]
fn tab_line_of_new_editor() {
    let tabs: BufferTab<RopeyCoreBuffer> = BufferTab::new(4, false);
    let line = tabs.draw_tab_line(12);
    assert_eq!(bar_text(&line), " 1 *     ...");
    assert_eq!(line.buf[1].unwrap().1, styles::tab_bar());
    assert_eq!(line.buf[8].unwrap().1, styles::ui());
    assert_eq!(line.tab[0], Some(0));
    assert_eq!(line.tab[8], None);
}

#[test]
fn tab_line_titles_are_file_names() {
    let mut tabs: BufferTab<RopeyCoreBuffer> = BufferTab::new(4, false);
    let mut buf: Buffer<RopeyCoreBuffer> = Buffer::new(4, false);
    buf.set_path(Some("/tmp/dir/hello.rs".to_string()));
    tabs.open(buf);
    let mut buf2: Buffer<RopeyCoreBuffer> = Buffer::new(4, false);
    buf2.set_path(Some("src/ab".to_string()));
    tabs.open(buf2);
    let line = tabs.draw_tab_line(24);
    assert_eq!(bar_text(&line), " 1 hello\u{2026} 2 ab    ......");
    assert_eq!(line.buf[1].unwrap().1, styles::default());
    assert_eq!(line.buf[11].unwrap().1, styles::tab_bar());
}

#[test]
fn tab_line_marks_remote_editing() {
    let mut tabs: BufferTab<RopeyCoreBuffer> = BufferTab::new(4, false);
    tabs.apply(TabOperation::StartRmate, 4, false);
    let line = tabs.draw_tab_line(12);
    assert_eq!(bar_text(&line), "R  1 *     .");
    assert_eq!(line.buf[0].unwrap().1, styles::highlight());
}

#[test]
fn clicking_the_tab_bar_changes_tab() {
    let mut tabs: BufferTab<RopeyCoreBuffer> = BufferTab::new(4, false);
    tabs.apply(TabOperation::NewTab, 4, false);
    assert_eq!(tabs.index, 1);
    tabs.click(40, 2);
    assert_eq!(tabs.index, 0);
    tabs.click(40, 11);
    assert_eq!(tabs.index, 1);
    tabs.click(40, 30);
    assert_eq!(tabs.index, 1);
}
