use table_viewer::load::{number_rows, read_csv, LoadError};
use table_viewer::renderer::{fixed_width, RenderingAction, TableRenderer, TerminalTableRenderer};
use table_viewer::state::{CharCoord, TableState};
use table_viewer::text::{compare_int, compare_str, row_number};
use table_viewer::viewer::{Key, Mode, TableViewer};
use std::cmp::Ordering;

fn grid(n: usize) -> (Vec<String>, Vec<Vec<String>>) {
    let header: Vec<String> = vec!["a".to_string(), "bb".to_string(), "c".to_string()];
    let records: Vec<Vec<String>> = (1..n + 1)
        .map(|i| vec![format!("{}a", i), format!("{}bb", i), format!("{}c", i)])
        .collect();
    number_rows(header, records)
}

fn state_with(n: usize, x: usize, y: usize) -> TableState {
    let (header, rows) = grid(n);
    TableState::new(header, rows, CharCoord { x, y })
}

fn position(s: &TableState) -> (usize, usize, usize, usize) {
    (s.offsets.row, s.cur_pos.row, s.offsets.col, s.cur_pos.col)
}

fn first_cells(s: &TableState) -> Vec<String> {
    s.rows.iter().map(|r| r[0].clone()).collect()
}

fn check_bounds(s: &TableState) {
    let d = s.terminal_size.y - 1;
    let n = s.rows.len();
    let c = s.columns.len();
    assert!(s.cur_pos.row <= d.min(n));
    assert!(s.offsets.row <= n.saturating_sub(d));
    assert!(s.offsets.col < c);
    assert!(s.cur_pos.col < c - s.offsets.col);
}

#[test]
fn layout_widths_and_offsets() {
    let s = state_with(5, 9, 4);
    let widths: Vec<usize> = s.columns.iter().map(|c| c.width).collect();
    let starts: Vec<usize> = s.columns.iter().map(|c| c.index).collect();
    assert_eq!(widths, vec![3, 4, 5, 4]);
    assert_eq!(starts, vec![0, 3, 7, 12]);
    assert_eq!(s.displayable_data_rows(), 3);
    assert_eq!(position(&s), (0, 0, 0, 0));
}

#[test]
fn layout_clamps_to_terminal_width() {
    let header = vec!["#".to_string(), "name".to_string()];
    let rows = vec![vec!["1".to_string(), "a very long cell value".to_string()]];
    let s = TableState::new(header, rows, CharCoord { x: 10, y: 5 });
    assert_eq!(s.columns[1].width, 10);
    assert_eq!(s.columns[0].width, 3);
}

#[test]
fn scenario_move_down_shifts_window() {
    let mut s = state_with(5, 9, 4);
    assert_eq!(s.move_down(), RenderingAction::MoveCursor);
    assert_eq!(s.move_down(), RenderingAction::MoveCursor);
    assert_eq!(s.move_down(), RenderingAction::MoveCursor);
    assert_eq!(s.move_down(), RenderingAction::Rerender);
    assert_eq!(position(&s), (1, 3, 0, 0));
    assert_eq!(s.move_down(), RenderingAction::Rerender);
    assert_eq!(position(&s), (2, 3, 0, 0));
    assert_eq!(s.move_down(), RenderingAction::Nothing);
    assert_eq!(position(&s), (2, 3, 0, 0));
}

#[test]
fn scenario_move_right_narrows_columns() {
    let mut s = state_with(5, 9, 4);
    assert_eq!(s.move_right(), RenderingAction::MoveCursor);
    assert_eq!(position(&s), (0, 0, 0, 1));
    assert_eq!(s.move_right(), RenderingAction::Rerender);
    assert_eq!(position(&s), (0, 0, 1, 1));
    assert_eq!(s.move_right(), RenderingAction::Rerender);
    assert_eq!(position(&s), (0, 0, 2, 1));
    assert_eq!(s.move_right(), RenderingAction::Nothing);
    assert_eq!(position(&s), (0, 0, 2, 1));
    assert!(s.last_col_visible());
}

#[test]
fn move_left_and_line_ends() {
    let mut s = state_with(5, 9, 4);
    assert_eq!(s.move_left(), RenderingAction::Nothing);
    assert_eq!(s.move_end_of_line(), RenderingAction::Rerender);
    assert_eq!(position(&s), (0, 0, 2, 1));
    assert_eq!(s.x_offset(), 7);
    assert_eq!(s.move_left(), RenderingAction::MoveCursor);
    assert_eq!(position(&s), (0, 0, 2, 0));
    assert_eq!(s.move_left(), RenderingAction::Rerender);
    assert_eq!(position(&s), (0, 0, 1, 0));
    assert_eq!(s.move_start_of_line(), RenderingAction::Rerender);
    assert_eq!(position(&s), (0, 0, 0, 0));
    assert_eq!(s.move_start_of_line(), RenderingAction::MoveCursor);
    assert_eq!(position(&s), (0, 0, 0, 0));
}

#[test]
fn jumps_are_idempotent() {
    let mut s = state_with(10, 9, 4);
    s.move_down();
    s.move_right();
    s.move_end();
    let once = position(&s);
    assert_eq!(once, (7, 3, 0, 1));
    s.move_end();
    assert_eq!(position(&s), once);
    s.move_home();
    let once = position(&s);
    assert_eq!(once, (0, 0, 0, 1));
    s.move_home();
    assert_eq!(position(&s), once);
    s.move_end_of_line();
    let once = position(&s);
    s.move_end_of_line();
    assert_eq!(position(&s), once);
    s.move_start_of_line();
    let once = position(&s);
    assert_eq!(s.move_start_of_line(), RenderingAction::MoveCursor);
    assert_eq!(position(&s), once);
}

#[test]
fn rows_exactly_filling_window_stop_at_last_row() {
    let mut s = state_with(3, 9, 4);
    s.move_down();
    s.move_down();
    s.move_down();
    assert!(s.is_bottom());
    assert!(s.final_row_visible());
    assert_eq!(s.move_down(), RenderingAction::Nothing);
    assert_eq!(position(&s), (0, 3, 0, 0));
}

#[test]
fn empty_grid_vertical_moves_do_nothing() {
    let mut s = state_with(0, 9, 4);
    assert_eq!(s.move_down(), RenderingAction::Nothing);
    assert_eq!(s.move_up(), RenderingAction::Nothing);
    assert_eq!(s.move_page_down(), RenderingAction::Nothing);
    assert_eq!(s.move_page_up(), RenderingAction::Nothing);
    assert_eq!(s.move_home(), RenderingAction::Rerender);
    assert_eq!(s.move_end(), RenderingAction::Rerender);
    assert_eq!(position(&s), (0, 0, 0, 0));
}

#[test]
fn paging_down_and_up() {
    let mut s = state_with(10, 9, 4);
    assert_eq!(s.move_page_down(), RenderingAction::MoveCursor);
    assert_eq!(position(&s), (0, 1, 0, 0));
    assert_eq!(s.move_page_down(), RenderingAction::Rerender);
    assert_eq!(position(&s), (2, 1, 0, 0));
    assert_eq!(s.move_page_down(), RenderingAction::Rerender);
    assert_eq!(position(&s), (4, 1, 0, 0));
    s.move_page_down();
    s.move_page_down();
    assert_eq!(position(&s), (7, 1, 0, 0));
    assert_eq!(s.move_page_down(), RenderingAction::MoveCursor);
    assert_eq!(position(&s), (7, 3, 0, 0));
    assert_eq!(s.move_page_down(), RenderingAction::Nothing);
    assert_eq!(s.move_page_up(), RenderingAction::Rerender);
    assert_eq!(position(&s), (5, 3, 0, 0));
    s.move_page_up();
    s.move_page_up();
    assert_eq!(position(&s), (1, 3, 0, 0));
    assert_eq!(s.move_page_up(), RenderingAction::Rerender);
    assert_eq!(position(&s), (0, 3, 0, 0));
    assert_eq!(s.move_page_up(), RenderingAction::MoveCursor);
    assert_eq!(position(&s), (0, 0, 0, 0));
    assert_eq!(s.move_page_up(), RenderingAction::Nothing);
}

#[test]
fn page_down_with_few_rows_stays_on_last_row() {
    let mut s = state_with(2, 9, 5);
    s.move_page_down();
    assert_eq!(s.move_page_down(), RenderingAction::MoveCursor);
    assert_eq!(position(&s), (0, 2, 0, 0));
    assert_eq!(s.move_end(), RenderingAction::Rerender);
    assert_eq!(position(&s), (0, 2, 0, 0));
}

#[test]
fn bounds_hold_over_a_sequence_of_operations() {
    let mut s = state_with(7, 9, 4);
    for step in 0..60 {
        match step % 9 {
            0 => s.move_down(),
            1 => s.move_page_down(),
            2 => s.move_right(),
            3 => s.move_end(),
            4 => s.move_up(),
            5 => s.move_left(),
            6 => s.move_page_up(),
            7 => s.move_end_of_line(),
            _ => s.descending(s.current_column()),
        };
        check_bounds(&s);
    }
}

#[test]
fn sort_then_restore_original_order() {
    let mut s = state_with(12, 9, 4);
    let original = s.rows.clone();
    assert_eq!(s.descending(0), RenderingAction::Rerender);
    assert_eq!(first_cells(&s)[0], "12");
    s.ascending(2);
    // lexicographic: "10bb" < "11bb" < "12bb" < "1bb" < "2bb"
    assert_eq!(first_cells(&s)[..4], ["10", "11", "12", "1"]);
    s.descending(1);
    assert_eq!(first_cells(&s)[0], "9");
    assert_eq!(s.ascending(0), RenderingAction::Rerender);
    assert_eq!(s.rows, original);
}

#[test]
fn sort_keeps_ties_in_order() {
    let header = vec!["#".to_string(), "k".to_string()];
    let rows: Vec<Vec<String>> = vec![("1", "b"), ("2", "a"), ("3", "b"), ("4", "a")]
        .into_iter()
        .map(|(n, k)| vec![n.to_string(), k.to_string()])
        .collect();
    let mut s = TableState::new(header, rows, CharCoord { x: 20, y: 10 });
    s.move_down();
    s.ascending(1);
    assert_eq!(first_cells(&s), vec!["2", "4", "1", "3"]);
    s.descending(1);
    assert_eq!(first_cells(&s), vec!["1", "3", "2", "4"]);
    assert_eq!(position(&s), (0, 1, 0, 0));
}

#[test]
fn search_wraps_around() {
    let mut s = state_with(10, 9, 4);
    s.move_right();
    s.move_end();
    assert_eq!(s.current_row(), 10);
    assert_eq!(s.search("2a"), RenderingAction::Rerender);
    // found row index 1 (the second row), inside the first window
    assert_eq!(position(&s), (0, 2, 0, 1));
    assert_eq!(s.search("9"), RenderingAction::Rerender);
    assert_eq!(position(&s), (7, 2, 0, 1));
    assert_eq!(s.search("5a"), RenderingAction::Rerender);
    assert_eq!(position(&s), (4, 1, 0, 1));
}

#[test]
fn search_without_match_changes_nothing() {
    let mut s = state_with(10, 9, 4);
    s.move_page_down();
    s.move_page_down();
    let before = position(&s);
    assert_eq!(s.search("zz"), RenderingAction::Rerender);
    assert_eq!(position(&s), before);
}

#[test]
fn execute_command_runs_buffered_search() {
    let mut s = state_with(10, 9, 4);
    s.command_buffer = vec!['/'];
    assert_eq!(s.execute_command(), RenderingAction::Nothing);
    s.command_buffer = "/8".chars().collect();
    assert_eq!(s.execute_command(), RenderingAction::Rerender);
    assert_eq!(position(&s), (7, 1, 0, 0));
}

#[test]
fn fixed_width_cuts_and_pads() {
    assert_eq!(fixed_width("abc", 2), "a…");
    assert_eq!(fixed_width("abc", 3), "abc");
    assert_eq!(fixed_width("ab", 5), "ab   ");
    assert_eq!(fixed_width("äöü", 2), "ä…");
}

#[test]
fn compare_helpers() {
    assert_eq!(compare_str("abc", "abd"), Ordering::Less);
    assert_eq!(compare_str("ab", "a"), Ordering::Greater);
    assert_eq!(compare_str("", ""), Ordering::Equal);
    assert_eq!(compare_str("Z", "a"), Ordering::Less);
    assert_eq!(compare_int("9", "10"), Ordering::Less);
    assert_eq!(compare_int("42", "42"), Ordering::Equal);
    assert_eq!(row_number("1234"), 1234);
}

#[test]
fn number_rows_prepends_numbers() {
    let (header, rows) = grid(11);
    assert_eq!(header, vec!["#", "a", "bb", "c"]);
    assert_eq!(rows[0], vec!["1", "1a", "1bb", "1c"]);
    assert_eq!(rows[9][0], "10");
    assert_eq!(rows[10][0], "11");
}

#[test]
fn cursor_and_command_rendering() {
    let mut s = state_with(5, 9, 4);
    let r = TerminalTableRenderer {};
    s.move_down();
    s.move_right();
    assert_eq!(r.render(&s, &RenderingAction::MoveCursor).unwrap(), "\x1b[2;4H");
    assert_eq!(r.render(&s, &RenderingAction::Reset).unwrap(), "\x1b[2J\x1b[1;1H");
    assert!(r.render(&s, &RenderingAction::Nothing).is_none());
    s.command_buffer = "/ab".chars().collect();
    assert_eq!(
        r.render(&s, &RenderingAction::Command).unwrap(),
        "\x1b[4;1H         \x1b[4;1H/ab"
    );
}

#[test]
fn viewer_command_mode() {
    let (header, rows) = grid(10);
    let mut v = TableViewer::new(TerminalTableRenderer {}, header, rows, CharCoord { x: 9, y: 4 });
    assert_eq!(v.handle_key(Key::Char('/')), RenderingAction::Command);
    assert_eq!(v.mode, Mode::Command);
    assert_eq!(v.handle_key(Key::Char('7')), RenderingAction::Command);
    assert_eq!(v.handle_key(Key::Char('\n')), RenderingAction::Rerender);
    assert_eq!(v.mode, Mode::Normal);
    assert_eq!(position(&v.state), (6, 1, 0, 0));
    assert_eq!(v.handle_key(Key::Char(' ')), RenderingAction::Rerender);
    assert_eq!(v.handle_key(Key::Char('/')), RenderingAction::Command);
    assert_eq!(v.handle_key(Key::Backspace), RenderingAction::Rerender);
    assert_eq!(v.mode, Mode::Normal);
    v.handle_key(Key::Char('/'));
    assert_eq!(v.handle_key(Key::Char('\n')), RenderingAction::Rerender);
    v.handle_key(Key::Char('/'));
    v.handle_key(Key::Char('x'));
    assert_eq!(v.handle_key(Key::Esc), RenderingAction::Rerender);
    assert!(v.state.command_buffer.is_empty());
    assert_eq!(v.handle_key(Key::Ctrl('c')), RenderingAction::Reset);
}

#[test]
fn viewer_normal_mode_keys() {
    let (header, rows) = grid(10);
    let mut v = TableViewer::new(TerminalTableRenderer {}, header, rows, CharCoord { x: 9, y: 4 });
    assert_eq!(v.handle_key(Key::Char('G')), RenderingAction::Rerender);
    assert_eq!(position(&v.state), (7, 3, 0, 0));
    assert_eq!(v.handle_key(Key::Char('g')), RenderingAction::Nothing);
    assert_eq!(v.handle_key(Key::Char('g')), RenderingAction::Rerender);
    assert_eq!(position(&v.state), (0, 0, 0, 0));
    assert_eq!(v.handle_key(Key::Char('j')), RenderingAction::MoveCursor);
    assert_eq!(v.handle_key(Key::Char('l')), RenderingAction::MoveCursor);
    assert_eq!(v.handle_key(Key::Char('d')), RenderingAction::Rerender);
    assert_eq!(v.state.rows[0][1], "9a");
    assert_eq!(v.handle_key(Key::Char('o')), RenderingAction::Rerender);
    assert_eq!(v.state.rows[0][0], "1");
    assert_eq!(v.handle_key(Key::Char('z')), RenderingAction::Nothing);
    assert!(v.render(&RenderingAction::Rerender).is_some());
    assert_eq!(v.handle_key(Key::Char('q')), RenderingAction::Reset);
}

#[test]
fn read_csv_numbers_rows_and_honours_quotes() {
    let text = "name;note\nx;'a;b'\ny;plain\n";
    let (header, rows) = match read_csv(text.as_bytes(), b';', b'\'') {
        Ok(table) => table,
        Err(_) => panic!("well-formed input"),
    };
    assert_eq!(header, vec!["#", "name", "note"]);
    assert_eq!(rows, vec![vec!["1", "x", "a;b"], vec!["2", "y", "plain"]]);
}

#[test]
fn read_csv_reports_malformed_records() {
    let text = "a,b\n1,2\n3\n";
    assert!(matches!(read_csv(text.as_bytes(), b',', b'"'), Err(LoadError::Csv(_))));
}

#[test]
fn read_csv_header_only() {
    let (header, rows) = match read_csv("x,y\n".as_bytes(), b',', b'"') {
        Ok(table) => table,
        Err(_) => panic!("well-formed input"),
    };
    assert_eq!(header, vec!["#", "x", "y"]);
    assert!(rows.is_empty());
}

#[test]
fn command_mode_leaves_view_alone() {
    let (header, rows) = grid(10);
    let mut v = TableViewer::new(TerminalTableRenderer {}, header, rows, CharCoord { x: 9, y: 4 });
    v.handle_key(Key::PageDown);
    v.handle_key(Key::PageDown);
    v.handle_key(Key::Right);
    let before = position(&v.state);
    let rows_before = v.state.rows.clone();
    assert_eq!(v.handle_key(Key::Char('/')), RenderingAction::Command);
    assert_eq!(v.handle_key(Key::Char('x')), RenderingAction::Command);
    assert_eq!(v.state.command_buffer, vec!['/', 'x']);
    assert_eq!(v.handle_key(Key::Esc), RenderingAction::Rerender);
    assert_eq!(position(&v.state), before);
    v.handle_key(Key::Char('/'));
    assert_eq!(v.handle_key(Key::Char('\n')), RenderingAction::Rerender);
    assert_eq!(v.mode, Mode::Normal);
    assert_eq!(position(&v.state), before);
    v.handle_key(Key::Char('/'));
    assert_eq!(v.handle_key(Key::Backspace), RenderingAction::Rerender);
    assert_eq!(v.mode, Mode::Normal);
    assert_eq!(position(&v.state), before);
    assert_eq!(v.state.rows, rows_before);
    let reset = v.render(&RenderingAction::Reset).unwrap();
    assert_eq!(reset, "\x1b[2J\x1b[1;1H");
}

#[test]
fn large_sort_is_stable_and_restorable() {
    let header = vec!["#".to_string(), "k".to_string()];
    let rows: Vec<Vec<String>> = (1..201)
        .map(|i| vec![i.to_string(), ((i * 7) % 5).to_string()])
        .collect();
    let original = rows.clone();
    let mut s = TableState::new(header, rows, CharCoord { x: 20, y: 10 });
    s.ascending(1);
    for w in s.rows.windows(2) {
        assert!(w[0][1] <= w[1][1]);
        if w[0][1] == w[1][1] {
            assert!(w[0][0].parse::<usize>().unwrap() < w[1][0].parse::<usize>().unwrap());
        }
    }
    s.descending(0);
    assert_eq!(s.rows[0][0], "200");
    s.ascending(0);
    assert_eq!(s.rows, original);
}
