use arma3_mod_manager::config::{Config, DEFAULT_ARGS};
use arma3_mod_manager::errors::AppError;
use arma3_mod_manager::launch::{game_app_path, launch_args, mod_flag_string, plan_links, GameDirEntry};
use arma3_mod_manager::manager::{sort_by_name, MetaFile, Mod, ModManager, WorkshopEntry};
use arma3_mod_manager::metadata::{normalize_name, parse_meta_name};
use arma3_mod_manager::paginator::Paginator;
use arma3_mod_manager::paths::setup_steam_paths;
use arma3_mod_manager::session::{command_for, Action, Command, KeyCode, KeyPress, Mode, Terminal};
use arma3_mod_manager::text::{decimal_string, join, less_than, parse_u64};

fn entry(name: &str, is_dir: bool, meta: MetaFile) -> WorkshopEntry {
    WorkshopEntry { file_name: Some(name.to_string()), is_dir, meta }
}

fn meta(text: &str) -> MetaFile {
    MetaFile::Content(text.as_bytes().to_vec())
}

fn mods(n: u64) -> Vec<Mod> {
    (0..n).map(|i| Mod::new(i + 1, format!("Mod {}", i + 1))).collect()
}

fn manager(n: u64, page_size: usize) -> ModManager {
    let config = Config::new("/games/arma".to_string(), "/workshop".to_string(), true, true).unwrap();
    ModManager::new(config, mods(n), page_size)
}

fn key(c: char) -> KeyPress {
    KeyPress { code: KeyCode::Char(c), control: false }
}

fn special(code: KeyCode) -> KeyPress {
    KeyPress { code, control: false }
}

fn enabled_flags(t: &Terminal) -> Vec<bool> {
    t.mod_manager.loaded_mods.all_items().iter().map(|m| m.enabled).collect()
}

// ---- pagination ----

#[test]
fn total_pages_is_ceiling() {
    assert_eq!(Paginator::new(vec![0u8; 1], 15).total_pages(), 1);
    assert_eq!(Paginator::new(vec![0u8; 15], 15).total_pages(), 1);
    assert_eq!(Paginator::new(vec![0u8; 16], 15).total_pages(), 2);
    assert_eq!(Paginator::new(vec![0u8; 30], 15).total_pages(), 2);
    assert_eq!(Paginator::new(vec![0u8; 31], 15).total_pages(), 3);
    assert_eq!(Paginator::new(vec![0u8; 7], 1).total_pages(), 7);
}

#[test]
fn empty_list_has_one_empty_page() {
    let mut p: Paginator<u8> = Paginator::new(Vec::new(), 15);
    assert_eq!(p.total_pages(), 1);
    assert!(p.current_page_items().is_empty());
    p.next_page();
    assert_eq!(p.current_page, 0);
    p.prev_page();
    assert_eq!(p.current_page, 0);
}

#[test]
fn current_page_items_windows() {
    let mut p = Paginator::new((0..7u32).collect::<Vec<_>>(), 3);
    assert_eq!(p.current_page_items(), &[0, 1, 2]);
    p.next_page();
    assert_eq!(p.current_page_items(), &[3, 4, 5]);
    p.next_page();
    assert_eq!(p.current_page_items(), &[6]);
    p.current_page = 9;
    assert!(p.current_page_items().is_empty());
}

#[test]
fn navigation_saturates_at_both_ends() {
    let mut p = Paginator::new((0..5u32).collect::<Vec<_>>(), 2);
    p.prev_page();
    assert_eq!(p.current_page, 0);
    p.next_page();
    p.next_page();
    assert_eq!(p.current_page, 2);
    p.next_page();
    assert_eq!(p.current_page, 2);
    p.prev_page();
    assert_eq!(p.current_page, 1);
}

#[test]
fn filter_spans_all_pages() {
    let p = Paginator::new((0..10u32).collect::<Vec<_>>(), 3);
    let even: Vec<u32> = p.filter(|x| x % 2 == 0).into_iter().copied().collect();
    assert_eq!(even, vec![0, 2, 4, 6, 8]);
    assert_eq!(p.all_items().len(), 10);
}

#[test]
fn all_items_mut_changes_items() {
    let mut p = Paginator::new(vec![1u32, 2, 3], 2);
    p.all_items_mut()[2] = 9;
    assert_eq!(p.all_items(), &[1, 2, 9]);
}

// ---- text ----

#[test]
fn decimal_and_parse() {
    assert_eq!(decimal_string(0), "0");
    assert_eq!(decimal_string(1234567), "1234567");
    assert_eq!(decimal_string(u64::MAX), "18446744073709551615");
    assert_eq!(parse_u64("123"), Some(123));
    assert_eq!(parse_u64("+7"), Some(7));
    assert_eq!(parse_u64("-7"), None);
    assert_eq!(parse_u64(""), None);
    assert_eq!(parse_u64("+"), None);
    assert_eq!(parse_u64("12a"), None);
    assert_eq!(parse_u64("18446744073709551615"), Some(u64::MAX));
    assert_eq!(parse_u64("18446744073709551616"), None);
    assert_eq!(parse_u64("007"), Some(7));
}

#[test]
fn join_adds_one_separator() {
    assert_eq!(join("/a/b", "c"), "/a/b/c");
    assert_eq!(join("/a/b/", "c"), "/a/b/c");
    assert_eq!(join("", "c"), "c");
}

#[test]
fn string_order_is_lexicographic() {
    assert!(less_than("Abc", "abc"));
    assert!(less_than("ab", "abc"));
    assert!(!less_than("abc", "abc"));
    assert!(!less_than("b", "abc"));
}

// ---- metadata ----

#[test]
fn name_normalization() {
    assert_eq!(normalize_name("abc mod"), "Abc mod");
    assert_eq!(normalize_name(""), "");
    assert_eq!(normalize_name("Zeta"), "Zeta");
    assert_eq!(normalize_name("ßharp"), "SSharp");
    assert_eq!(normalize_name("élan"), "Élan");
}

#[test]
fn meta_name_first_assignment() {
    assert_eq!(parse_meta_name("name = \"Test Mod\";"), Some("Test Mod".to_string()));
    assert_eq!(parse_meta_name("name=\"A\"\nname = \"B\""), Some("A".to_string()));
    assert_eq!(parse_meta_name("protocol = 1;\nname \t=\n \"x y\";"), Some("x y".to_string()));
    assert_eq!(parse_meta_name("name = \"\";"), Some(String::new()));
    assert_eq!(parse_meta_name("title = \"Nope\""), None);
    assert_eq!(parse_meta_name("name = \"unterminated"), None);
    assert_eq!(parse_meta_name("name = 'x'"), None);
    assert_eq!(parse_meta_name("dirname = \"D\""), Some("D".to_string()));
}

#[test]
fn lossy_decoding_replaces_bad_bytes() {
    let entries = vec![WorkshopEntry {
        file_name: Some("42".to_string()),
        is_dir: true,
        meta: MetaFile::Content(b"name = \"ab\xffc\"".to_vec()),
    }];
    let report = ModManager::get_installed_mods(&entries);
    assert_eq!(report.mods.len(), 1);
    assert_eq!(report.mods[0].name, "Ab\u{FFFD}c");
}

// ---- scanning ----

#[test]
fn scan_keeps_only_valid_mods() {
    let entries = vec![
        entry("123", true, meta("name = \"Test Mod\"")),
        entry("456", true, MetaFile::Missing),
        entry("workshop_notes", true, meta("name = \"Other\"")),
    ];
    let report = ModManager::get_installed_mods(&entries);
    assert_eq!(report.mods.len(), 1);
    assert_eq!(report.mods[0].id, 123);
    assert_eq!(report.mods[0].name, "Test Mod");
    assert!(!report.mods[0].enabled);
    assert!(report.problems.is_empty());
}

#[test]
fn scan_reports_unreadable_metadata_and_goes_on() {
    let entries = vec![
        entry("5", true, MetaFile::Unreadable),
        entry("6", true, meta("name = \"zed\"")),
        entry("7", false, meta("name = \"file\"")),
        WorkshopEntry { file_name: None, is_dir: true, meta: meta("name = \"bad\"") },
        entry("8", true, meta("nothing here")),
        entry("9", true, meta("name = \"\"")),
    ];
    let report = ModManager::get_installed_mods(&entries);
    assert_eq!(report.problems, vec![AppError::MissingMeta(5)]);
    let got: Vec<(u64, String)> = report.mods.iter().map(|m| (m.id, m.name.clone())).collect();
    assert_eq!(got, vec![(9, String::new()), (6, "Zed".to_string())]);
}

#[test]
fn scan_sorts_by_name() {
    let entries = vec![
        entry("1", true, meta("name = \"charlie\"")),
        entry("2", true, meta("name = \"Alpha\"")),
        entry("3", true, meta("name = \"bravo\"")),
    ];
    let report = ModManager::get_installed_mods(&entries);
    let names: Vec<String> = report.mods.iter().map(|m| m.name.clone()).collect();
    assert_eq!(names, vec!["Alpha", "Bravo", "Charlie"]);
}

#[test]
fn sort_by_name_orders() {
    let v = vec![Mod::new(1, "b".to_string()), Mod::new(2, "a".to_string()), Mod::new(3, "B".to_string())];
    let r = sort_by_name(v);
    let ids: Vec<u64> = r.iter().map(|m| m.id).collect();
    assert_eq!(ids, vec![3, 2, 1]);
}

#[test]
fn mod_path_under_directory() {
    let m = Mod::new(450814997, "CBA".to_string());
    assert_eq!(m.get_path("/workshop"), "/workshop/450814997");
}

// ---- configuration ----

#[test]
fn config_checks_paths() {
    let c = Config::new("g".to_string(), "w".to_string(), true, true).unwrap();
    assert_eq!(c.get_default_args(), DEFAULT_ARGS);
    assert!(c.get_enabled_mods().is_empty());
    assert_eq!(c.get_game_path(), "g");
    assert_eq!(c.get_workshop_path(), "w");
    assert_eq!(
        Config::new("g".to_string(), "w".to_string(), false, false).unwrap_err(),
        AppError::InvalidPath("w".to_string())
    );
    assert_eq!(
        Config::new("g".to_string(), "w".to_string(), true, false).unwrap_err(),
        AppError::InvalidPath("g".to_string())
    );
}

#[test]
fn config_setters() {
    let mut c = Config::new("g".to_string(), "w".to_string(), true, true).unwrap();
    c.update_mods(vec![3, 1]);
    c.set_default_args("-window".to_string());
    assert_eq!(c.get_enabled_mods(), vec![3, 1]);
    assert_eq!(c.get_default_args(), "-window");
}

#[test]
fn manager_marks_saved_mods() {
    let mut config = Config::new("g".to_string(), "w".to_string(), true, true).unwrap();
    config.update_mods(vec![2]);
    let m = ModManager::new(config, mods(3), 2);
    let flags: Vec<bool> = m.loaded_mods.all_items().iter().map(|m| m.enabled).collect();
    assert_eq!(flags, vec![false, true, false]);
}

#[test]
fn default_paths_per_platform() {
    let (w, g) = setup_steam_paths("/home/u", "linux").unwrap();
    assert_eq!(w, "/home/u/.local/share/Steam/steamapps/workshop/content/107410");
    assert_eq!(g, "/home/u/.local/share/Steam/steamapps/common/Arma 3");
    let (w, _) = setup_steam_paths("/Users/u", "macos").unwrap();
    assert_eq!(w, "/Users/u/Library/Application Support/Steam/steamapps/workshop/content/107410");
    assert_eq!(setup_steam_paths("/home/u", "windows"), Err(AppError::UnsupportedPlatform));
}

// ---- launching ----

#[test]
fn arguments_list_mods_in_order() {
    let args = launch_args("/g/arma3.app", "-noSplash -world=empty", &vec![5, 2, 9]);
    assert_eq!(args, vec!["-a", "/g/arma3.app", "--args", "-noSplash -world=empty", "-mod=5;2;9"]);
    let n = args.len();
    assert_eq!(args[n - 1], "-mod=5;2;9");
    assert_eq!(args[n - 2], "-noSplash -world=empty");
}

#[test]
fn arguments_without_mods_have_no_mod_flag() {
    let args = launch_args("/g/arma3.app", "-noSplash", &Vec::new());
    assert_eq!(args, vec!["-a", "/g/arma3.app"]);
    assert!(args.iter().all(|a| !a.starts_with("-mod=")));
}

#[test]
fn arguments_with_empty_defaults() {
    let args = launch_args("app", "", &vec![7]);
    assert_eq!(args, vec!["-a", "app", "--args", "-mod=7"]);
    assert_eq!(mod_flag_string(&vec![1, 22, 333]), "-mod=1;22;333");
    assert_eq!(game_app_path("/g"), "/g/arma3.app");
}

fn dir(entries: &[(&str, bool)]) -> Vec<GameDirEntry> {
    entries.iter().map(|(n, l)| GameDirEntry { name: n.to_string(), is_symlink: *l }).collect()
}

#[test]
fn relaunch_keeps_one_link_per_mod() {
    let ids = vec![5u64, 2, 9];
    // A stale link from an earlier set, a real directory named like mod 5.
    let first = plan_links(&dir(&[("777", true), ("5", false), ("arma3.app", false)]), &ids);
    assert_eq!(first.remove, vec!["777"]);
    assert_eq!(first.create, vec![2, 9]);
    // The directory as the first launch left it.
    let second = plan_links(&dir(&[("5", false), ("arma3.app", false), ("2", true), ("9", true)]), &ids);
    assert_eq!(second.remove, vec!["2", "9"]);
    assert_eq!(second.create, vec![2, 9]);
}

#[test]
fn duplicate_ids_get_one_link() {
    let plan = plan_links(&Vec::new(), &vec![4, 4]);
    assert_eq!(plan.create, vec![4]);
}

// ---- session ----

#[test]
fn key_bindings() {
    assert_eq!(command_for(key('w')), Command::Up);
    assert_eq!(command_for(key('j')), Command::Down);
    assert_eq!(command_for(special(KeyCode::Left)), Command::PrevPage);
    assert_eq!(command_for(key('l')), Command::NextPage);
    assert_eq!(command_for(KeyPress { code: KeyCode::Char(' '), control: true }), Command::ToggleAll);
    assert_eq!(command_for(key(' ')), Command::Toggle);
    assert_eq!(command_for(key('r')), Command::Refresh);
    assert_eq!(command_for(key('f')), Command::EditParameters);
    assert_eq!(command_for(key('p')), Command::Launch);
    assert_eq!(command_for(special(KeyCode::Esc)), Command::Quit);
    assert_eq!(command_for(key('x')), Command::Ignore);
}

#[test]
fn selection_moves_within_page() {
    let mut m = manager(5, 3);
    let mut t = Terminal::new(&mut m);
    assert_eq!(t.handle_key(key('w')), Action::Render);
    assert_eq!(t.selected_index, 0);
    t.handle_key(key('s'));
    t.handle_key(key('s'));
    t.handle_key(key('s'));
    assert_eq!(t.selected_index, 2);
    t.handle_key(special(KeyCode::Right));
    assert_eq!(t.selected_index, 0);
    assert_eq!(t.mod_manager.loaded_mods.current_page, 1);
    t.handle_key(special(KeyCode::Down));
    t.handle_key(special(KeyCode::Down));
    assert_eq!(t.selected_index, 1);
    t.handle_key(special(KeyCode::Right));
    assert_eq!(t.mod_manager.loaded_mods.current_page, 1);
    t.handle_key(special(KeyCode::Up));
    assert_eq!(t.selected_index, 0);
}

#[test]
fn toggle_selected_uses_absolute_index() {
    let mut m = manager(5, 3);
    let mut t = Terminal::new(&mut m);
    t.handle_key(key('d'));
    t.handle_key(key('s'));
    t.handle_key(key(' '));
    assert_eq!(enabled_flags(&t), vec![false, false, false, false, true]);
    t.handle_key(key(' '));
    assert_eq!(enabled_flags(&t), vec![false; 5]);
}

#[test]
fn toggle_all_twice_restores() {
    let ctrl_space = KeyPress { code: KeyCode::Char(' '), control: true };
    let mut m = manager(4, 3);
    let mut t = Terminal::new(&mut m);
    t.handle_key(ctrl_space);
    assert_eq!(enabled_flags(&t), vec![true; 4]);
    t.handle_key(ctrl_space);
    assert_eq!(enabled_flags(&t), vec![false; 4]);
    // From a mixed list the first toggle enables every mod.
    t.handle_key(key(' '));
    t.handle_key(ctrl_space);
    assert_eq!(enabled_flags(&t), vec![true; 4]);
}

#[test]
fn refresh_clamps_selection() {
    let mut m = manager(7, 3);
    let mut t = Terminal::new(&mut m);
    t.handle_key(key('d'));
    t.handle_key(key('s'));
    t.handle_key(key('s'));
    assert_eq!((t.mod_manager.loaded_mods.current_page, t.selected_index), (1, 2));
    assert_eq!(t.handle_key(key('r')), Action::Refresh);
    t.apply_refresh(mods(2));
    assert_eq!(t.mod_manager.loaded_mods.current_page, 0);
    assert_eq!(t.selected_index, 0);
    assert_eq!(t.mod_manager.loaded_mods.current_page_items().len(), 2);
    t.apply_refresh(Vec::new());
    assert_eq!(t.selected_index, 0);
    assert!(t.mod_manager.loaded_mods.current_page_items().is_empty());
    // Keys on an empty list do nothing harmful.
    t.handle_key(key('s'));
    t.handle_key(key(' '));
    assert_eq!(t.selected_index, 0);
}

#[test]
fn parameter_edit_commits_on_enter() {
    let mut m = manager(1, 3);
    let mut t = Terminal::new(&mut m);
    assert_eq!(t.handle_key(key('f')), Action::Render);
    assert_eq!(t.mode, Mode::ParameterEdit);
    assert_eq!(t.buffer, DEFAULT_ARGS);
    for _ in 0.."-world=empty".len() {
        t.handle_key(special(KeyCode::Backspace));
    }
    t.handle_key(key('-'));
    t.handle_key(key('w'));
    assert_eq!(t.buffer, "-noSplash -skipIntro -w");
    assert_eq!(t.handle_key(special(KeyCode::Enter)), Action::Save);
    assert_eq!(t.mode, Mode::ListView);
    assert_eq!(t.mod_manager.config.get_default_args(), "-noSplash -skipIntro -w");
}

#[test]
fn parameter_edit_discards_on_escape() {
    let mut m = manager(1, 3);
    let mut t = Terminal::new(&mut m);
    t.handle_key(key('f'));
    t.handle_key(key('x'));
    assert_eq!(t.handle_key(special(KeyCode::Esc)), Action::Render);
    assert_eq!(t.mode, Mode::ListView);
    assert_eq!(t.mod_manager.config.get_default_args(), DEFAULT_ARGS);
    let mut e = manager(0, 3);
    let mut t = Terminal::new(&mut e);
    t.buffer = String::new();
    t.mode = Mode::ParameterEdit;
    t.handle_key(special(KeyCode::Backspace));
    assert_eq!(t.buffer, "");
}

#[test]
fn escape_quits_list_view() {
    let mut m = manager(1, 3);
    let mut t = Terminal::new(&mut m);
    assert_eq!(t.handle_key(special(KeyCode::Esc)), Action::Quit);
    assert_eq!(t.handle_key(key('p')), Action::Launch);
    assert_eq!(t.handle_key(key('q')), Action::Ignore);
}

#[test]
fn start_game_fails_without_bundle() {
    let mut m = manager(2, 3);
    let mut t = Terminal::new(&mut m);
    let r = t.start_game(false, &Vec::new());
    assert_eq!(r.unwrap_err(), AppError::InvalidPath("/games/arma/arma3.app".to_string()));
}

#[test]
fn start_game_plans_links_and_arguments() {
    let mut m = manager(3, 3);
    let mut t = Terminal::new(&mut m);
    t.handle_key(key(' '));
    t.handle_key(key('s'));
    t.handle_key(key('s'));
    t.handle_key(key(' '));
    let entries = dir(&[("old", true), ("arma3.app", false)]);
    let plan = t.start_game(true, &entries).unwrap();
    assert_eq!(plan.enabled_ids, vec![1, 3]);
    assert_eq!(plan.program, "open");
    assert_eq!(plan.remove, vec!["/games/arma/old"]);
    assert_eq!(
        plan.links,
        vec![
            ("/games/arma/1".to_string(), "/workshop/1".to_string()),
            ("/games/arma/3".to_string(), "/workshop/3".to_string()),
        ]
    );
    assert_eq!(plan.args, vec!["-a", "/games/arma/arma3.app", "--args", DEFAULT_ARGS, "-mod=1;3"]);
    assert_eq!(t.mod_manager.config.get_enabled_mods(), vec![1, 3]);
}

#[test]
fn start_game_with_nothing_enabled() {
    let mut m = manager(2, 3);
    let mut t = Terminal::new(&mut m);
    let plan = t.start_game(true, &dir(&[("1", true)])).unwrap();
    assert!(plan.enabled_ids.is_empty());
    assert!(plan.links.is_empty());
    assert_eq!(plan.remove, vec!["/games/arma/1"]);
    assert_eq!(plan.args, vec!["-a", "/games/arma/arma3.app"]);
    assert!(t.mod_manager.config.get_enabled_mods().is_empty());
}
