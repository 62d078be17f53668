use std::path::PathBuf;

use peekpe::app::{
    build_full_items, is_pe, move_selection, Action, App, Entry, EntryKind, Key, ListKind, Screen,
};
use peekpe::pe::{ImportDll, PeInfo};

#[test]
fn test_quit_app() {
    let mut app = App::new(PathBuf::from("."), Vec::new());
    app.quit();
    assert!(app.should_quit);
}

#[test]
fn detects_pe_extensions() {
    assert!(is_pe("a.exe"));
    assert!(is_pe("b.DLL"));
    assert!(!is_pe("c.txt"));
    assert!(!is_pe("noext"));
}

#[test]
fn pe_extension_edge_cases() {
    assert!(is_pe("x.ExE"));
    assert!(is_pe("archive.tar.dll"));
    assert!(is_pe("пример.exe"));
    assert!(!is_pe(".exe"));
    assert!(!is_pe(".."));
    assert!(!is_pe("."));
    assert!(!is_pe("a.exe.bak"));
    assert!(!is_pe("a.exee"));
    assert!(!is_pe("a."));
    assert!(!is_pe(""));
    assert!(is_pe("..exe"));
}

fn entry(name: &str, kind: EntryKind) -> Entry {
    Entry { name: name.to_string(), path: PathBuf::from(name), kind }
}

fn sample_app() -> App {
    App::new(
        PathBuf::from("/work"),
        vec![
            entry("..", EntryKind::Parent),
            entry("bin", EntryKind::Dir),
            entry("tool.exe", EntryKind::PeFile),
        ],
    )
}

fn sample_pe() -> PeInfo {
    PeInfo {
        name: "tool.exe".to_string(),
        path: PathBuf::from("/work/tool.exe"),
        size: 0x600,
        machine: 0x8664,
        characteristics: 0x0022,
        magic: 0x20B,
        is_pe32_plus: true,
        entry_point: 0x1010,
        image_base: 0x1_4000_0000,
        file_alignment: 0x200,
        section_alignment: 0x1000,
        size_of_image: 0x3000,
        dll_characteristics: 0x8160,
        sections: Vec::new(),
        exports: vec!["alpha".to_string(), "beta".to_string()],
        imports: vec![ImportDll {
            name: "KERNEL32.dll".to_string(),
            functions: vec!["ExitProcess".to_string(), "Ordinal #5".to_string()],
        }],
        has_relocations: true,
        has_resources: false,
    }
}

#[test]
fn new_app_highlights_first_entry() {
    let app = sample_app();
    assert_eq!(app.list_selected, Some(0));
    assert_eq!(app.screen, Screen::Explorer);
    assert!(!app.should_quit);
    let empty = App::new(PathBuf::from("/"), Vec::new());
    assert_eq!(empty.list_selected, None);
}

#[test]
fn explorer_navigation_wraps_round() {
    let mut app = sample_app();
    assert_eq!(app.handle_key(Key::Down), Action::Stay);
    assert_eq!(app.list_selected, Some(1));
    app.handle_key(Key::Char('j'));
    assert_eq!(app.list_selected, Some(2));
    app.handle_key(Key::Down);
    assert_eq!(app.list_selected, Some(0));
    app.handle_key(Key::Up);
    assert_eq!(app.list_selected, Some(2));
    app.handle_key(Key::Char('k'));
    assert_eq!(app.list_selected, Some(1));
}

#[test]
fn navigation_in_empty_listing_changes_nothing() {
    let mut app = App::new(PathBuf::from("/"), Vec::new());
    app.handle_key(Key::Down);
    assert_eq!(app.list_selected, None);
    app.handle_key(Key::Up);
    assert_eq!(app.list_selected, None);
    assert_eq!(app.handle_key(Key::Enter), Action::Stay);
}

#[test]
fn explorer_activation_asks_for_work() {
    let mut app = sample_app();
    assert_eq!(app.handle_key(Key::Enter), Action::EnterDir(0));
    app.handle_key(Key::Down);
    assert_eq!(app.handle_key(Key::Right), Action::EnterDir(1));
    app.handle_key(Key::Down);
    assert_eq!(app.handle_key(Key::Char('l')), Action::OpenPe(2));
    assert_eq!(app.handle_key(Key::Left), Action::ParentDir);
    assert_eq!(app.handle_key(Key::Backspace), Action::ParentDir);
    assert_eq!(app.handle_key(Key::Char('h')), Action::ParentDir);
    assert_eq!(app.handle_key(Key::Char('x')), Action::Stay);
    assert_eq!(app.screen, Screen::Explorer);
}

#[test]
fn stale_selection_activates_nothing() {
    let mut app = sample_app();
    app.list_selected = Some(7);
    assert_eq!(app.activate(), Action::Stay);
    app.select_next();
    assert_eq!(app.list_selected, Some(0));
}

#[test]
fn explorer_quits_on_q_and_esc() {
    let mut app = sample_app();
    app.handle_key(Key::Esc);
    assert!(app.should_quit);
    let mut app = sample_app();
    app.handle_key(Key::Char('q'));
    assert!(app.should_quit);
}

#[test]
fn opened_file_shows_its_card() {
    let mut app = sample_app();
    app.error = Some("old".to_string());
    app.detail_scroll = 5;
    app.show_pe(sample_pe());
    assert_eq!(app.screen, Screen::Detail);
    assert_eq!(app.detail_scroll, 0);
    assert_eq!(app.error, None);
    assert_eq!(app.selected.as_ref().unwrap().name, "tool.exe");
}

#[test]
fn detail_scrolls_without_wrapping() {
    let mut app = sample_app();
    app.show_pe(sample_pe());
    app.handle_key(Key::Up);
    assert_eq!(app.detail_scroll, 0);
    app.handle_key(Key::Down);
    app.handle_key(Key::Char('j'));
    assert_eq!(app.detail_scroll, 2);
    app.handle_key(Key::Char('k'));
    assert_eq!(app.detail_scroll, 1);
    app.detail_scroll = u16::MAX;
    app.handle_key(Key::Down);
    assert_eq!(app.detail_scroll, u16::MAX);
}

#[test]
fn detail_back_and_quit() {
    let mut app = sample_app();
    app.show_pe(sample_pe());
    app.handle_key(Key::Esc);
    assert_eq!(app.screen, Screen::Explorer);
    app.show_pe(sample_pe());
    app.handle_key(Key::Char('q'));
    assert!(app.should_quit);
    assert_eq!(app.screen, Screen::Detail);
}

#[test]
fn full_export_list() {
    let mut app = sample_app();
    app.show_pe(sample_pe());
    app.handle_key(Key::Char('e'));
    assert_eq!(app.screen, Screen::FullList);
    assert_eq!(app.full_title, "Экспорт — 2 функций");
    assert_eq!(app.full_items.len(), 2);
    assert_eq!(app.full_items[0].text, "alpha");
    assert!(!app.full_items[0].header);
    assert_eq!(app.full_selected, Some(0));
    app.handle_key(Key::Esc);
    assert_eq!(app.screen, Screen::Detail);
}

#[test]
fn full_import_list() {
    let mut app = sample_app();
    app.show_pe(sample_pe());
    app.handle_key(Key::Char('i'));
    assert_eq!(app.screen, Screen::FullList);
    assert_eq!(app.full_title, "Импорт — 1 DLL, 2 функций");
    let texts: Vec<&str> = app.full_items.iter().map(|i| i.text.as_str()).collect();
    assert_eq!(texts, vec!["KERNEL32.dll (2)", "    ExitProcess", "    Ordinal #5"]);
    assert!(app.full_items[0].header);
    assert!(!app.full_items[1].header);
}

#[test]
fn empty_table_does_not_open() {
    let mut app = sample_app();
    let mut pe = sample_pe();
    pe.exports.clear();
    pe.imports.clear();
    app.show_pe(pe);
    app.handle_key(Key::Char('e'));
    assert_eq!(app.screen, Screen::Detail);
    app.handle_key(Key::Char('i'));
    assert_eq!(app.screen, Screen::Detail);
    let mut app = sample_app();
    app.screen = Screen::Detail;
    app.handle_key(Key::Char('e'));
    assert_eq!(app.screen, Screen::Detail);
}

#[test]
fn full_list_moves_within_bounds() {
    let mut app = sample_app();
    app.show_pe(sample_pe());
    app.handle_key(Key::Char('i'));
    app.handle_key(Key::Up);
    assert_eq!(app.full_selected, Some(0));
    app.handle_key(Key::Down);
    assert_eq!(app.full_selected, Some(1));
    app.handle_key(Key::PageDown);
    assert_eq!(app.full_selected, Some(2));
    app.handle_key(Key::Char('j'));
    assert_eq!(app.full_selected, Some(2));
    app.handle_key(Key::PageUp);
    assert_eq!(app.full_selected, Some(0));
    app.handle_key(Key::End);
    assert_eq!(app.full_selected, Some(2));
    app.handle_key(Key::Home);
    assert_eq!(app.full_selected, Some(0));
    app.handle_key(Key::Char('k'));
    assert_eq!(app.full_selected, Some(0));
    app.handle_key(Key::Char('h'));
    assert_eq!(app.screen, Screen::Detail);
}

#[test]
fn full_list_quits() {
    let mut app = sample_app();
    app.show_pe(sample_pe());
    app.handle_key(Key::Char('e'));
    app.handle_key(Key::Char('q'));
    assert!(app.should_quit);
}

#[test]
fn move_selection_clamps() {
    let mut sel = None;
    move_selection(&mut sel, 0, 1);
    assert_eq!(sel, None);
    move_selection(&mut sel, 5, 1);
    assert_eq!(sel, Some(1));
    move_selection(&mut sel, 5, 10);
    assert_eq!(sel, Some(4));
    move_selection(&mut sel, 5, -10);
    assert_eq!(sel, Some(0));
    let mut sel = Some(9);
    move_selection(&mut sel, 5, -1);
    assert_eq!(sel, Some(4));
    let mut sel = Some(3);
    move_selection(&mut sel, 30, -1);
    assert_eq!(sel, Some(2));
}

#[test]
fn listing_results_update_state() {
    let mut app = sample_app();
    app.error = Some("x".to_string());
    app.list_selected = Some(2);
    app.apply_listing(PathBuf::from("/work/bin"), vec![entry("..", EntryKind::Parent)]);
    assert_eq!(app.cwd, PathBuf::from("/work/bin"));
    assert_eq!(app.entries.len(), 1);
    assert_eq!(app.list_selected, Some(0));
    assert_eq!(app.error, None);
    app.apply_listing(PathBuf::from("/"), Vec::new());
    assert_eq!(app.list_selected, None);
    app.listing_failed("/root", "Permission denied");
    assert_eq!(app.error.as_deref(), Some("Не удалось открыть /root: Permission denied"));
    assert_eq!(app.cwd, PathBuf::from("/"));
}

#[test]
fn parse_failure_is_reported() {
    let mut app = sample_app();
    app.parse_failed("нет DOS-сигнатуры MZ");
    assert_eq!(app.error.as_deref(), Some("Ошибка разбора: нет DOS-сигнатуры MZ"));
    assert_eq!(app.screen, Screen::Explorer);
}

#[test]
fn builds_full_items_directly() {
    let pe = sample_pe();
    let (title, items) = build_full_items(&pe, ListKind::Exports);
    assert_eq!(title, "Экспорт — 2 функций");
    assert_eq!(items.len(), 2);
    let (title, items) = build_full_items(&pe, ListKind::Imports);
    assert_eq!(title, "Импорт — 1 DLL, 2 функций");
    assert_eq!(items.len(), 3);
}
