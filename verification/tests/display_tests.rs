use std::path::PathBuf;
use term_ssh_manager::app::App;
use term_ssh_manager::display::{
    centered_rect, delete_prompt, form_cursor, row_runs, selection_counter, server_tags_text,
    session_cursor, Area, CellStyle, TermCell, TermColor,
};
use term_ssh_manager::form::{form_fields, FormField};
use term_ssh_manager::server::Server;

fn server(alias: &str, user: &str, port: u16, tags: &str) -> Server {
    Server {
        alias: alias.to_string(),
        host: "example.com".to_string(),
        username: user.to_string(),
        port,
        tags: tags.to_string(),
    }
}

#[test]
fn connection_text_uses_fallback_user() {
    assert_eq!(server("a", "admin", 22, "").display_connection("me"), "admin@example.com:22");
    assert_eq!(server("a", "", 2222, "").display_connection("me"), "me@example.com:2222");
}

#[test]
fn ssh_arguments() {
    assert_eq!(server("a", "admin", 2222, "").ssh_args("me"), vec!["-p", "2222", "admin@example.com"]);
    assert_eq!(server("a", "", 22, "").ssh_args("root"), vec!["-p", "22", "root@example.com"]);
}

#[test]
fn tags_note() {
    assert_eq!(server_tags_text(&server("a", "", 22, "")), "");
    assert_eq!(server_tags_text(&server("a", "", 22, "db, critical")), "  [db, critical]");
}

#[test]
fn status_counter() {
    let app = App::new(PathBuf::from("x"), vec![server("a", "", 22, ""), server("b", "", 22, "")]);
    assert_eq!(selection_counter(&app), " [1/2] ");
    let mut app = app;
    app.move_selection_down();
    assert_eq!(selection_counter(&app), " [2/2] ");
    let empty = App::new(PathBuf::from("x"), Vec::new());
    assert_eq!(selection_counter(&empty), " [empty] ");
}

#[test]
fn delete_question() {
    let app = App::new(PathBuf::from("x"), vec![server("Prod", "", 22, "")]);
    assert_eq!(delete_prompt(&app, 0), "Delete 'Prod'?");
    assert_eq!(delete_prompt(&app, 3), "Delete '?'?");
}

#[test]
fn centered_popup() {
    let r = Area { x: 0, y: 0, width: 100, height: 50 };
    assert_eq!(centered_rect(60, 60, r), Area { x: 20, y: 10, width: 60, height: 30 });
    assert_eq!(centered_rect(50, 20, r), Area { x: 25, y: 20, width: 50, height: 10 });
    let offset = Area { x: 10, y: 5, width: 40, height: 20 };
    assert_eq!(centered_rect(50, 50, offset), Area { x: 20, y: 10, width: 20, height: 10 });
}

fn style(fg: TermColor, bold: bool) -> CellStyle {
    CellStyle { fg, bg: TermColor::Reset, bold, italic: false, underline: false }
}

fn cell(text: &str, st: CellStyle) -> Option<TermCell> {
    Some(TermCell { contents: text.to_string(), wide_continuation: false, style: st })
}

#[test]
fn row_runs_group_by_style() {
    let a = style(TermColor::Reset, false);
    let b = style(TermColor::Indexed(2), true);
    let row = vec![
        cell("h", a),
        cell("i", a),
        cell("", a),
        cell("界", b),
        Some(TermCell { contents: String::new(), wide_continuation: true, style: a }),
        cell("x", b),
        None,
        None,
        cell("z", style(TermColor::Rgb(1, 2, 3), false)),
    ];
    let runs = row_runs(&row);
    let texts: Vec<&str> = runs.iter().map(|r| r.text.as_str()).collect();
    assert_eq!(texts, vec!["hi ", "界x", "  ", "z"]);
    assert_eq!(runs[0].style, Some(a));
    assert_eq!(runs[1].style, Some(b));
    assert_eq!(runs[2].style, None);
    assert_eq!(runs[3].style, Some(style(TermColor::Rgb(1, 2, 3), false)));
}

#[test]
fn row_runs_of_missing_cells() {
    let runs = row_runs(&vec![None, None, None]);
    assert_eq!(runs.len(), 1);
    assert_eq!(runs[0].text, "   ");
    assert_eq!(runs[0].style, None);
    assert!(row_runs(&Vec::new()).is_empty());
}

#[test]
fn session_cursor_inside_area() {
    let area = Area { x: 2, y: 1, width: 10, height: 5 };
    assert_eq!(session_cursor(area, false, 0, 0), Some((2, 1)));
    assert_eq!(session_cursor(area, false, 4, 9), Some((11, 5)));
    assert_eq!(session_cursor(area, false, 5, 0), None);
    assert_eq!(session_cursor(area, false, 0, 10), None);
    assert_eq!(session_cursor(area, true, 0, 0), None);
}

#[test]
fn form_cursor_after_text() {
    let input = Area { x: 4, y: 7, width: 30, height: 3 };
    assert_eq!(form_cursor(input, ""), (5, 8));
    assert_eq!(form_cursor(input, "abc"), (8, 8));
    assert_eq!(form_cursor(input, "é"), (7, 8));
}


#[test]
fn adjacent_runs_differ_in_style() {
    let a = style(TermColor::Indexed(1), false);
    let b = style(TermColor::Indexed(1), true);
    let row = vec![cell("a", a), cell("b", b), cell("c", b), cell("d", a), None, cell("e", a)];
    let runs = row_runs(&row);
    let joined: String = runs.iter().map(|r| r.text.as_str()).collect();
    assert_eq!(joined, "abcd e");
    for w in runs.windows(2) {
        assert_ne!(w[0].style, w[1].style);
    }
    assert!(runs.iter().all(|r| !r.text.is_empty()));
}

#[test]
fn main_screen_rows() {
    let (header, list, status) = term_ssh_manager::display::screen_areas(Area { x: 0, y: 0, width: 80, height: 24 });
    assert_eq!(header, Area { x: 0, y: 0, width: 80, height: 3 });
    assert_eq!(list, Area { x: 0, y: 3, width: 80, height: 18 });
    assert_eq!(status, Area { x: 0, y: 21, width: 80, height: 3 });
}

#[test]
fn form_rows() {
    let rows = term_ssh_manager::display::form_areas(Area { x: 0, y: 0, width: 40, height: 30 });
    assert_eq!(rows.len(), 12);
    assert_eq!(rows[0], Area { x: 1, y: 1, width: 38, height: 1 });
    assert_eq!(rows[1], Area { x: 1, y: 2, width: 38, height: 3 });
    assert_eq!(rows[9], Area { x: 1, y: 18, width: 38, height: 3 });
    assert_eq!(rows[10], Area { x: 1, y: 21, width: 38, height: 2 });
}

#[test]
fn form_field_order() {
    let fields = form_fields();
    assert_eq!(fields, vec![FormField::Alias, FormField::Host, FormField::Username, FormField::Port, FormField::Tags]);
    for i in 0..5 {
        assert_eq!(fields[i].next(), fields[(i + 1) % 5]);
    }
}

#[test]
fn list_row_texts_and_highlight() {
    let s = server("Prod", "", 2222, "db");
    let (alias, connection, tags) = term_ssh_manager::display::server_list_row(&s, "me");
    assert_eq!(alias, "Prod");
    assert_eq!(connection, "  me@example.com:2222");
    assert_eq!(tags, "  [db]");
    let mut app = App::new(PathBuf::from("x"), vec![s.clone(), server("b", "", 22, "")]);
    app.move_selection_down();
    assert_eq!(term_ssh_manager::display::highlighted_row(&app), Some(1));
    let empty = App::new(PathBuf::from("x"), Vec::new());
    assert_eq!(term_ssh_manager::display::highlighted_row(&empty), None);
}

#[test]
fn popup_lies_inside_area() {
    for (w, h) in [(100u16, 50u16), (7, 3), (0, 0), (1, 1), (200, 60)] {
        let r = Area { x: 3, y: 4, width: w, height: h };
        let c = centered_rect(60, 60, r);
        assert!(r.x <= c.x && c.x + c.width <= r.x + r.width);
        assert!(r.y <= c.y && c.y + c.height <= r.y + r.height);
    }
}

#[test]
fn main_screen_rows_top_to_bottom() {
    for h in [0u16, 5, 8, 11, 24, 60] {
        let area = Area { x: 2, y: 1, width: 30, height: h };
        let (a, b, c) = term_ssh_manager::display::screen_areas(area);
        assert!(area.y <= a.y && a.y + a.height <= b.y && b.y + b.height <= c.y && c.y + c.height <= area.y + area.height);
    }
}

#[test]
fn hidden_cursor_needs_no_room() {
    let area = Area { x: u16::MAX, y: u16::MAX, width: 5, height: 5 };
    assert_eq!(session_cursor(area, true, 9, 9), None);
}

fn rnd(a: u64, b: u64) -> u64 {
    (2 * a + b) / (2 * b)
}

fn extent(start: u16, len: u16) -> u64 {
    start.saturating_add(len) as u64 - start as u64
}

fn check_popups(percents: &[u16], origin: u16) {
    let sizes = [0u16, 1, 2, 3, 7, 10, 33, 50, 99, 101, 157, 240];
    for &p in percents {
        for &q in &[0u16, 33, 60, 100] {
            for &w in &sizes {
                for &h in &[0u16, 1, 5, 61] {
                    let r = Area { x: origin, y: origin / 2, width: w, height: h };
                    let c = centered_rect(p, q, r);
                    let (ex, ey) = (extent(r.x, r.width), extent(r.y, r.height));
                    let (sx, sy) = (((100 - p) / 2) as u64, ((100 - q) / 2) as u64);
                    let ctx = format!("p={} q={} r={:?} c={:?}", p, q, r, c);
                    assert_eq!(c.x as u64, r.x as u64 + rnd(ex * sx, 100), "{}", ctx);
                    assert_eq!(c.x as u64 + c.width as u64, r.x as u64 + rnd(ex * (sx + p as u64), 100), "{}", ctx);
                    assert_eq!(c.y as u64, r.y as u64 + rnd(ey * sy, 100), "{}", ctx);
                    assert_eq!(c.y as u64 + c.height as u64, r.y as u64 + rnd(ey * (sy + q as u64), 100), "{}", ctx);
                }
            }
        }
    }
}

#[test]
fn popup_geometry_small_percentages() {
    check_popups(&[0, 1, 20, 33], 0);
}

#[test]
fn popup_geometry_large_percentages() {
    check_popups(&[49, 50, 51, 60, 99, 100], 5);
}

#[test]
fn popup_geometry_at_screen_edge() {
    check_popups(&[1, 50, 77], 65530);
}

#[test]
fn main_screen_heights_when_they_fit() {
    for &y in &[0u16, 3, 65500] {
        for h in 11u16..=120 {
            let area = Area { x: 1, y, width: 20, height: h };
            let size = extent(y, h) as u16;
            if size < 11 {
                continue;
            }
            let (a, b, c) = term_ssh_manager::display::screen_areas(area);
            assert_eq!((a.y, a.height), (y, 3));
            assert_eq!((b.y, b.height), (y + 3, size - 6));
            assert_eq!((c.y, c.height), (y + size - 3, 3));
        }
    }
}

#[test]
fn form_rows_when_they_fit() {
    for h in 24u16..=80 {
        let inner = Area { x: 2, y: 3, width: 30, height: h };
        let rows = term_ssh_manager::display::form_areas(inner);
        let top = 4u16;
        let size = h - 2;
        for i in 0..10u16 {
            let off = if i % 2 == 0 { 2 * i } else { 2 * i - 1 };
            let lines = if i % 2 == 0 { 1 } else { 3 };
            assert_eq!((rows[i as usize].y, rows[i as usize].height), (top + off, lines), "h={} i={}", h, i);
        }
        assert_eq!((rows[10].y, rows[10].height), (top + 20, 2));
        assert_eq!((rows[11].y, rows[11].y + rows[11].height), (top + 22, top + size));
    }
}
