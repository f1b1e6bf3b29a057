use cs::cursor::{clamp, down, up};
use cs::filter::{filter, Entry};
use cs::matcher::{fold_chars, fuzzy_match, match_folded};
use cs::nav::{Action, App, Control, Event, Key};
use cs::render::{cursor_column, highlight_segments};

fn entry(name: &str, is_dir: bool) -> Entry {
    Entry { name: name.to_string(), is_dir }
}

fn fruit() -> Vec<Entry> {
    vec![entry("apple", false), entry("Banana", true), entry("grape", false)]
}

fn names(app: &App) -> Vec<String> {
    app.get_files().iter().map(|v| v.name.clone()).collect()
}

#[test]
fn match_is_case_insensitive_subsequence() {
    assert_eq!(fuzzy_match("an", "Banana"), Some(vec![1, 2]));
    assert_eq!(fuzzy_match("BN", "banana"), Some(vec![0, 2]));
    assert_eq!(fuzzy_match("an", "apple"), None);
    assert_eq!(fuzzy_match("an", "grape"), None);
}

#[test]
fn match_takes_earliest_positions() {
    assert_eq!(fuzzy_match("aa", "banana"), Some(vec![1, 3]));
    assert_eq!(fuzzy_match("abc", "aXbXc"), Some(vec![0, 2, 4]));
    assert_eq!(fuzzy_match("abcd", "abc"), None);
}

#[test]
fn match_counts_characters_not_bytes() {
    assert_eq!(fuzzy_match("é", "café"), Some(vec![3]));
    assert_eq!(fuzzy_match("É", "école"), Some(vec![0]));
}

fn strings(v: &[&str]) -> Vec<String> {
    v.iter().map(|s| s.to_string()).collect()
}

#[test]
fn fold_chars_lower_cases_each_character() {
    assert_eq!(fold_chars("AbÉ"), strings(&["a", "b", "é"]));
    assert_eq!(fold_chars("İ").len(), 1);
    assert!(fold_chars("").is_empty());
}

#[test]
fn match_folded_is_greedy_on_folded_forms() {
    let q = strings(&["a", "n"]);
    assert_eq!(match_folded(&q, &strings(&["b", "a", "n", "a", "n", "a"])), Some(vec![1, 2]));
    assert_eq!(match_folded(&q, &strings(&["a", "p", "p", "l", "e"])), None);
    assert_eq!(match_folded(&vec![], &strings(&["x"])), Some(vec![]));
    assert_eq!(match_folded(&strings(&["x"]), &vec![]), None);
    assert_eq!(match_folded(&strings(&["A"]), &strings(&["a"])), None);
}

#[test]
fn empty_query_matches_everything() {
    assert_eq!(fuzzy_match("", "anything"), Some(vec![]));
    assert_eq!(fuzzy_match("", ""), Some(vec![]));
    let v = filter(&fruit(), "");
    assert_eq!(v.len(), 3);
    for (k, e) in v.iter().enumerate() {
        assert_eq!(e.source_index, k);
        assert!(e.highlights.is_empty());
    }
    assert_eq!(v[1].name, "Banana");
}

#[test]
fn filter_keeps_banana_for_an() {
    let v = filter(&fruit(), "an");
    assert_eq!(v.len(), 1);
    assert_eq!(v[0].name, "Banana");
    assert_eq!(v[0].highlights, vec![1, 2]);
    assert_eq!(v[0].source_index, 1);
}

#[test]
fn filter_preserves_listing_order() {
    let v = filter(&fruit(), "p");
    let got: Vec<(String, usize)> = v.iter().map(|e| (e.name.clone(), e.source_index)).collect();
    assert_eq!(got, vec![("apple".to_string(), 0), ("grape".to_string(), 2)]);
}

#[test]
fn filter_of_empty_listing_is_empty() {
    assert!(filter(&Vec::new(), "a").is_empty());
}

#[test]
fn clamp_policy() {
    assert_eq!(clamp(Some(5), 0), None);
    assert_eq!(clamp(None, 0), None);
    assert_eq!(clamp(Some(2), 1), Some(0));
    assert_eq!(clamp(Some(7), 3), Some(2));
    assert_eq!(clamp(Some(1), 3), Some(1));
    assert_eq!(clamp(None, 4), Some(0));
}

#[test]
fn moves_saturate() {
    assert_eq!(up(Some(0)), Some(0));
    assert_eq!(down(Some(2), 3), Some(2));
    assert_eq!(down(Some(1), 3), Some(2));
    assert_eq!(up(down(Some(1), 3)), Some(1));
    assert_eq!(up(Some(2)), Some(1));
    assert_eq!(down(None, 0), None);
}

#[test]
fn new_app_selects_first_entry() {
    let app = App::new(vec!["home".to_string()], fruit());
    assert_eq!(names(&app), vec!["apple", "Banana", "grape"]);
    assert_eq!(app.selected(), Some(0));
    assert_eq!(app.get_current_dir(), &vec!["home".to_string()]);
    let empty = App::new(vec![], vec![]);
    assert_eq!(empty.selected(), None);
}

#[test]
fn search_an_shows_banana() {
    let mut app = App::new(vec![], fruit());
    app.search = "an".to_string();
    assert_eq!(app.update(Event::Search), Action::Stay);
    assert_eq!(names(&app), vec!["Banana"]);
    assert_eq!(app.get_files()[0].highlights, vec![1, 2]);
    assert_eq!(app.selected(), Some(0));
}

#[test]
fn search_without_match_clears_selection() {
    let mut app = App::new(vec![], fruit());
    app.search = "z".to_string();
    app.update(Event::Search);
    assert!(app.get_files().is_empty());
    assert_eq!(app.selected(), None);
}

#[test]
fn shrinking_search_clamps_cursor() {
    let mut app = App::new(vec![], fruit());
    app.update(Event::Down);
    app.update(Event::Down);
    assert_eq!(app.selected(), Some(2));
    app.search = "an".to_string();
    app.update(Event::Search);
    assert_eq!(app.get_files().len(), 1);
    assert_eq!(app.selected(), Some(0));
}

#[test]
fn up_and_down_in_app() {
    let mut app = App::new(vec![], fruit());
    app.update(Event::Up);
    assert_eq!(app.selected(), Some(0));
    app.update(Event::Down);
    app.update(Event::Down);
    app.update(Event::Down);
    assert_eq!(app.selected(), Some(2));
    app.update(Event::Up);
    assert_eq!(app.selected(), Some(1));
}

#[test]
fn right_on_directory_enters_it() {
    let mut app = App::new(vec!["home".to_string()], fruit());
    app.search = "an".to_string();
    app.update(Event::Search);
    assert_eq!(app.update(Event::Right), Action::Reload);
    assert_eq!(app.get_current_dir(), &vec!["home".to_string(), "Banana".to_string()]);
    assert_eq!(app.search, "");
    assert!(app.get_files().is_empty());
    assert_eq!(app.selected(), None);
    app.load(vec![entry("x", false), entry("y", true)]);
    assert_eq!(names(&app), vec!["x", "y"]);
    assert_eq!(app.selected(), Some(0));
}

#[test]
fn entering_empty_directory_leaves_no_selection() {
    let mut app = App::new(vec![], fruit());
    app.update(Event::Down);
    assert_eq!(app.update(Event::Right), Action::Reload);
    app.load(vec![]);
    assert_eq!(app.selected(), None);
    assert_eq!(app.search, "");
}

#[test]
fn right_on_file_changes_nothing() {
    let mut app = App::new(vec!["home".to_string()], fruit());
    assert_eq!(app.update(Event::Right), Action::Stay);
    assert_eq!(app.get_current_dir(), &vec!["home".to_string()]);
    assert_eq!(app.selected(), Some(0));
    assert_eq!(names(&app).len(), 3);
}

#[test]
fn left_goes_to_parent_until_root() {
    let mut app = App::new(vec!["home".to_string(), "me".to_string()], fruit());
    app.search = "g".to_string();
    app.update(Event::Search);
    assert_eq!(app.update(Event::Left), Action::Reload);
    assert_eq!(app.get_current_dir(), &vec!["home".to_string()]);
    assert_eq!(app.search, "");
    app.load(fruit());
    assert_eq!(names(&app).len(), 3);
    assert_eq!(app.update(Event::Left), Action::Reload);
    app.load(fruit());
    assert_eq!(app.update(Event::Left), Action::Stay);
    assert!(app.get_current_dir().is_empty());
}

#[test]
fn keys_edit_the_query() {
    let mut app = App::new(vec![], fruit());
    assert_eq!(app.handle_key(Key::Char('a')), (Action::Stay, Control::Continue));
    app.handle_key(Key::Char('n'));
    assert_eq!(app.search, "an");
    assert_eq!(names(&app), vec!["Banana"]);
    app.handle_key(Key::Backspace);
    assert_eq!(app.search, "a");
    assert_eq!(names(&app), vec!["apple", "Banana", "grape"]);
    app.handle_key(Key::Backspace);
    app.handle_key(Key::Backspace);
    assert_eq!(app.search, "");
}

#[test]
fn keys_quit_and_commit() {
    let mut app = App::new(vec![], fruit());
    assert_eq!(app.handle_key(Key::Esc), (Action::Stay, Control::Quit));
    assert_eq!(app.handle_key(Key::Other), (Action::Stay, Control::Continue));
    assert_eq!(app.handle_key(Key::Down), (Action::Stay, Control::Continue));
    assert_eq!(app.handle_key(Key::Enter), (Action::Reload, Control::Commit));
    assert_eq!(app.get_current_dir(), &vec!["Banana".to_string()]);
}

#[test]
fn segments_split_around_highlights() {
    let s = highlight_segments("Banana", &vec![1, 2]);
    let got: Vec<(String, bool)> = s.iter().map(|g| (g.text.clone(), g.highlighted)).collect();
    assert_eq!(
        got,
        vec![
            ("B".to_string(), false),
            ("a".to_string(), true),
            ("n".to_string(), true),
            ("ana".to_string(), false)
        ]
    );
    let whole = highlight_segments("plain", &vec![]);
    assert_eq!(whole.len(), 1);
    assert_eq!(whole[0].text, "plain");
    assert!(!whole[0].highlighted);
    let last = highlight_segments("ab", &vec![0, 1]);
    assert_eq!(last.len(), 2);
    assert!(last[1].highlighted);
}

#[test]
fn cursor_column_follows_display_width() {
    assert_eq!(cursor_column(0, "abc"), 4);
    assert_eq!(cursor_column(2, ""), 3);
    assert_eq!(cursor_column(0, "日本"), 5);
    assert_eq!(cursor_column(65535, "x"), 65535);
}
