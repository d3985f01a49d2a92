use std::collections::HashSet;
use std::io::Error;

use basalt::app::command_for;
use basalt::{BasaltApp, BasaltState, Bundle, BundleLoader, Command, Key, Selection};

fn bundle_of(dir: &str, names: &[&str]) -> Bundle {
    let listing: Result<Vec<Result<String, Error>>, Error> =
        Ok(names.iter().map(|n| Ok(format!("{dir}/{n}"))).collect());
    BundleLoader::new(dir).load(listing).unwrap()
}

fn empty_app() -> BasaltApp {
    BasaltApp::new(BundleLoader::new("/tmp/basalt").init(Ok::<(), Error>(())).unwrap())
}

#[test]
fn app_test_handle_key_event() {
    let mut app = empty_app();

    app.handle_key(Key::Char('q'));
    assert_eq!(app.state(), BasaltState::Exiting);
}

#[test]
fn interface_test_handle_key_event() {
    let mut app = empty_app();
    app.start();
    assert_eq!(app.state(), BasaltState::Running);

    assert_eq!(app.handle_key(Key::Esc), Command::Quit);
    assert_eq!(app.state(), BasaltState::Exiting);
}

#[test]
fn test_file_list_nav() {
    let mut app = BasaltApp::new(bundle_of("/tmp/basalt", &["1", "2", "3"]));

    assert_eq!(app.selection().selected(), None);

    // up down nav
    app.handle_key(Key::Char('j'));
    assert_eq!(app.selection().selected(), Some(0));
    app.handle_key(Key::Char('j'));
    assert_eq!(app.selection().selected(), Some(1));
    app.handle_key(Key::Char('k'));
    assert_eq!(app.selection().selected(), Some(0));

    // cannot go up beyond top
    app.handle_key(Key::Char('k'));
    assert_eq!(app.selection().selected(), Some(0));

    // cannot go down beyond bottom
    app.handle_key(Key::Down);
    app.handle_key(Key::Down);
    let last_idx = app.selection().selected();
    assert_eq!(last_idx, Some(2));
    app.handle_key(Key::Char('j'));
    assert_eq!(app.selection().selected(), last_idx);
}

#[test]
fn handle_file_update() {
    let dir = "/tmp/basalt";
    let mut app = BasaltApp::new(bundle_of(dir, &[]));

    assert_eq!(app.handle_key(Key::Char('r')), Command::Refresh);
    let path = app.bundle().get_path().to_string();
    app.replace_bundle(bundle_of(&path, &["1.md", "2.md", "3.md", "folder1"]));

    let files = vec!["1.md", "2.md", "3.md", "folder1"];
    assert_eq!(
        app.bundle().get_note_names().into_iter().collect::<HashSet<_>>(),
        files.into_iter().map(String::from).collect::<HashSet<_>>()
    );
}

#[test]
fn commands_for_keys() {
    assert_eq!(command_for(Key::Char('q')), Command::Quit);
    assert_eq!(command_for(Key::Esc), Command::Quit);
    assert_eq!(command_for(Key::Char('j')), Command::SelectNext);
    assert_eq!(command_for(Key::Down), Command::SelectNext);
    assert_eq!(command_for(Key::Char('k')), Command::SelectPrev);
    assert_eq!(command_for(Key::Up), Command::SelectPrev);
    assert_eq!(command_for(Key::Char('r')), Command::Refresh);
    assert_eq!(command_for(Key::Char('x')), Command::Nothing);
    assert_eq!(command_for(Key::Other), Command::Nothing);
}

#[test]
fn other_keys_change_nothing() {
    let mut app = BasaltApp::new(bundle_of("/d", &["a"]));
    app.start();
    assert_eq!(app.handle_key(Key::Char('x')), Command::Nothing);
    assert_eq!(app.state(), BasaltState::Running);
    assert_eq!(app.selection(), Selection::Unselected);
}

#[test]
fn replace_clamps_selection() {
    let mut app = BasaltApp::new(bundle_of("/d", &["a", "b", "c"]));
    app.handle_key(Key::Up);
    assert_eq!(app.selection(), Selection::Selected(2));

    app.replace_bundle(bundle_of("/d", &["a"]));
    assert_eq!(app.selection(), Selection::Selected(0));

    app.replace_bundle(bundle_of("/d", &[]));
    assert_eq!(app.selection(), Selection::Unselected);
}

#[test]
fn current_note_loads_selected_once() {
    let mut app = BasaltApp::new(bundle_of("/d", &["a.md", "b.md"]));
    assert_eq!(app.note_to_read(), None);
    assert!(app.current_note(Some(Ok::<String, Error>(String::from("x")))).is_none());

    app.handle_key(Key::Down);
    app.handle_key(Key::Down);
    assert_eq!(app.note_to_read(), Some(String::from("/d/b.md")));
    let note = app.current_note(Some(Ok::<String, Error>(String::from("text of b")))).unwrap();
    assert_eq!(note.get(), Some("text of b"));
    assert_eq!(app.note_to_read(), None);
    let note = app.current_note(Some(Ok::<String, Error>(String::from("changed")))).unwrap();
    assert_eq!(note.get(), Some("text of b"));
}
