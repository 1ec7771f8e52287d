use helix_picker::explorer::{
    before_extension, begin, check_within_root, expand_tilde, explorer_keys, explorer_modal_keys,
    file_explorer, open_error, open_item, resolve_destination, row, yank_message, yank_register,
    Clipboard, ExplorerItem, FileExplorer, FileOperation, Opening, Prompted,
};
use helix_picker::fileops::{Effect, Event, Stage, Task, TaskKind};
use helix_picker::key::PickerMode;
use helix_picker::path::FilePath;
use helix_picker::picker::{Action, PickerAction};
use helix_picker::query::PickerQuery;

fn path(text: &str) -> FilePath {
    FilePath::from_text(text)
}

fn text(path: &FilePath) -> String {
    String::from_utf8(path.bytes.clone()).unwrap()
}

fn operation(root: &str, selected: &str) -> FileOperation {
    FileOperation { path: path(selected), root: path(root), cursor: 3 }
}

#[test]
fn test_check_within_root() {
    let root = &path("/home/user/project");

    // Ordinary entries of the explorer are fine.
    assert!(check_within_root(root, &path("/home/user/project/src")).is_ok());
    assert!(check_within_root(root, &path("/home/user/project/README.md")).is_ok());
    // `flatten_dirs` can produce entries nested deeper than one level.
    assert!(check_within_root(root, &path("/home/user/project/a/b/c")).is_ok());

    // The `..` row the explorer inserts must never be operated on.
    assert!(check_within_root(root, &path("/home/user/project/..")).is_err());
    // Neither may the root itself, nor anything outside it.
    assert!(check_within_root(root, root).is_err());
    assert!(check_within_root(root, &path("/home/user/other")).is_err());
    assert!(check_within_root(root, &path("/home/user/project/../other")).is_err());
    // A sibling whose name merely starts with the root's name is outside it.
    assert!(check_within_root(root, &path("/home/user/project2/src")).is_err());
}

#[test]
fn test_resolve_destination() {
    let anchor = &path("/home/user/project/src/main.rs");

    // A bare name lands next to the entry the prompt named, not in the
    // process' working directory.
    assert_eq!(
        text(&resolve_destination(anchor, "lib.rs", &None)),
        "/home/user/project/src/lib.rs"
    );
    // An absolute destination is taken as given.
    assert_eq!(
        text(&resolve_destination(anchor, "/tmp/lib.rs", &None)),
        "/tmp/lib.rs"
    );
}

#[test]
fn refusals_in_words() {
    let root = &path("/home/user/./project/x/..");
    assert_eq!(
        check_within_root(root, &path("/home/user/project/..")),
        Err("Cannot operate on the parent directory entry".to_string())
    );
    assert_eq!(
        check_within_root(root, &path("/home/user/project/../other")),
        Err("/home/user/other is outside of the file explorer root /home/user/project".to_string())
    );
    assert_eq!(
        check_within_root(root, &path("project/a")),
        Err("project/a is outside of the file explorer root /home/user/project".to_string())
    );
    assert!(check_within_root(&path(""), &path("a")).is_ok());
}

#[test]
fn the_home_directory_is_expanded() {
    let anchor = &path("/a/b");
    let home = &Some(path("/home/me"));
    assert_eq!(text(&resolve_destination(anchor, "~/x", home)), "/home/me/x");
    assert_eq!(text(&resolve_destination(anchor, "~//x/./y/", home)), "/home/me/x/./y");
    assert_eq!(text(&resolve_destination(anchor, "~x", home)), "/a/~x");
    assert_eq!(text(&resolve_destination(anchor, "./~", home)), "/a/./~");
    assert_eq!(text(&resolve_destination(anchor, "~/x", &None)), "/a/~/x");
    assert_eq!(text(&expand_tilde(&path("~"), home)), "/home/me/");
    assert_eq!(text(&resolve_destination(&path("/"), "x", home)), "x");
}

#[test]
fn the_cursor_stands_before_the_extension() {
    assert_eq!(before_extension(&path("/a/b.txt")), Some(4));
    assert_eq!(before_extension(&path("/a/b.tar.gz")), Some(3));
    assert_eq!(before_extension(&path("/a/b.")), Some(1));
    assert_eq!(before_extension(&path("/a/.profile")), None);
    assert_eq!(before_extension(&path("/a/b")), None);
    assert_eq!(before_extension(&path("/p/main.rs")), Some(3));
    assert_eq!(before_extension(&path("Makefile")), None);
    // What counts is characters, not bytes.
    assert_eq!(before_extension(&path("a.\u{e9}")), Some(2));
    assert_eq!(before_extension(&path("\u{e9}.\u{65e5}\u{672c}")), Some(3));
    let line = begin(Prompted::Rename, &operation("/r", "/r/a.\u{e9}"), false).unwrap();
    let at = line.prefill.chars().count() - line.back.unwrap();
    assert_eq!(line.prefill.chars().nth(at), Some('.'));
    // A byte that is no text is shown as one character.
    assert_eq!(before_extension(&FilePath { bytes: b"a.x\xff".to_vec() }), Some(3));
}

#[test]
fn prompts_of_the_operations() {
    let op = operation("/r", "/r/d/a.txt");
    let cases = [
        (Prompted::Create, false, "Create: ", "/r/d/", None),
        (Prompted::Move, false, "Move /r/d/a.txt -> ", "/r/d/a.txt", Some(4)),
        (Prompted::Rename, false, "Rename a.txt -> ", "a.txt", Some(4)),
        (Prompted::Delete, false, "Delete /r/d/a.txt? (y/n): ", "", None),
        (Prompted::Delete, true, "Delete /r/d/a.txt and everything in it? (y/n): ", "", None),
        (Prompted::Copy, false, "Copy /r/d/a.txt -> ", "/r/d/", None),
    ];
    for (kind, is_dir, prompt, prefill, back) in cases {
        let line = begin(kind, &op, is_dir).unwrap();
        assert_eq!(line.prompt, prompt);
        assert_eq!(line.prefill, prefill);
        assert_eq!(line.back, back);
    }
    // What may not be operated on is not even asked about.
    let up = operation("/r", "/r/..");
    for kind in [Prompted::Move, Prompted::Rename, Prompted::Delete] {
        assert!(begin(kind, &up, true).is_err());
    }
    for kind in [Prompted::Create, Prompted::Copy] {
        assert!(begin(kind, &up, true).is_ok());
    }
}

fn report(effect: &Effect) -> Option<Result<String, String>> {
    match effect {
        Effect::Report(outcome) => outcome.clone(),
        _ => panic!("the task is not over"),
    }
}

#[test]
fn creating_a_file_makes_the_directories_above_it() {
    let op = operation("/r", "/r/a.txt");
    let (mut task, effect) = Task::begin(Prompted::Create, &op, "x/y.txt", &None);
    assert!(matches!(&effect, Effect::AskExists(p) if text(p) == "/r/x/y.txt"));
    let effect = task.advance(Event::Is(false));
    assert!(matches!(&effect, Effect::MakeDirs(p) if text(p) == "/r/x"));
    let effect = task.advance(Event::Went(Ok(())));
    assert!(matches!(&effect, Effect::MakeFile(p) if text(p) == "/r/x/y.txt"));
    let effect = task.advance(Event::Went(Ok(())));
    assert_eq!(report(&effect), Some(Ok("Created file: /r/x/y.txt".to_string())));
    assert_eq!(task.stage, Stage::Over);
}

#[test]
fn creating_can_fail() {
    let op = operation("/r", "/r/a.txt");
    let (mut task, _) = Task::begin(Prompted::Create, &op, "b", &None);
    task.advance(Event::Is(false));
    let effect = task.advance(Event::Went(Err("full".to_string())));
    assert_eq!(
        report(&effect),
        Some(Err("Could not create intermediate directories: full".to_string()))
    );
    let (mut task, _) = Task::begin(Prompted::Create, &op, "b", &None);
    task.advance(Event::Is(false));
    task.advance(Event::Went(Ok(())));
    let effect = task.advance(Event::Went(Err("full".to_string())));
    assert_eq!(report(&effect), Some(Err("Unable to create file /r/b: full".to_string())));
    let (mut task, _) = Task::begin(Prompted::Create, &op, "b/", &None);
    let effect = task.advance(Event::Is(false));
    assert!(matches!(&effect, Effect::MakeDirs(p) if text(p) == "/r/b/"));
    let effect = task.advance(Event::Went(Err("full".to_string())));
    assert_eq!(report(&effect), Some(Err("Unable to create directory /r/b/: full".to_string())));
    // The root of the file system has no parent to make it in.
    let (mut task, _) = Task::begin(Prompted::Create, &op, "//", &None);
    assert_eq!(task.kind, TaskKind::CreateDirectory);
    let effect = task.advance(Event::Is(false));
    let (mut bare, _) = (Task { kind: TaskKind::CreateFile, from: path("/"), to: path("/"), stage: Stage::Target }, effect);
    assert_eq!(
        report(&bare.advance(Event::Is(false))),
        Some(Err("Failed to get parent directory of /".to_string()))
    );
}

#[test]
fn creating_a_directory() {
    let op = operation("/r", "/r/a.txt");
    let (mut task, _) = Task::begin(Prompted::Create, &op, "b/", &None);
    task.advance(Event::Is(false));
    let effect = task.advance(Event::Went(Ok(())));
    assert_eq!(report(&effect), Some(Ok("Created directory: /r/b/".to_string())));
}

#[test]
fn overwriting_asks_first() {
    let op = operation("/r", "/r/a.txt");
    for kind in [Prompted::Create, Prompted::Move, Prompted::Rename] {
        let (mut task, _) = Task::begin(kind, &op, "b.txt", &None);
        let effect = task.advance(Event::Is(true));
        assert!(matches!(
            &effect,
            Effect::Confirm(q) if q == "Path /r/b.txt already exists. Overwrite? (y/n): "
        ));
        let effect = task.advance(Event::Typed("yes".to_string()));
        assert_eq!(report(&effect), None);
        assert_eq!(task.stage, Stage::Over);
    }
    let (mut task, _) = Task::begin(Prompted::Move, &op, "b.txt", &None);
    task.advance(Event::Is(true));
    let effect = task.advance(Event::Typed("y".to_string()));
    assert!(
        matches!(&effect, Effect::Move(from, to) if text(from) == "/r/a.txt" && text(to) == "/r/b.txt")
    );
}

#[test]
fn moving_in_words() {
    let op = operation("/r", "/r/a.txt");
    let (mut task, _) = Task::begin(Prompted::Rename, &op, "b.txt", &None);
    task.advance(Event::Is(false));
    let effect = task.advance(Event::Went(Ok(())));
    assert_eq!(report(&effect), Some(Ok("Moved /r/a.txt -> /r/b.txt".to_string())));
    let (mut task, _) = Task::begin(Prompted::Move, &op, "b.txt", &None);
    task.advance(Event::Is(false));
    let effect = task.advance(Event::Went(Err("busy".to_string())));
    assert_eq!(
        report(&effect),
        Some(Err("Unable to move file /r/a.txt -> /r/b.txt: busy".to_string()))
    );
    let (mut task, _) = Task::begin(Prompted::Move, &op, "/b/", &None);
    task.advance(Event::Is(false));
    let effect = task.advance(Event::Went(Err("busy".to_string())));
    assert_eq!(
        report(&effect),
        Some(Err("Unable to move directory /r/a.txt -> /b/: busy".to_string()))
    );
}

#[test]
fn copying_a_file() {
    let op = operation("/r", "/r/a.txt");
    let (mut task, effect) = Task::begin(Prompted::Copy, &op, "b.txt", &None);
    assert!(matches!(&effect, Effect::AskIsDir(p) if text(p) == "/r/a.txt"));
    let effect = task.advance(Event::Is(false));
    assert!(matches!(&effect, Effect::AskExists(p) if text(p) == "/r/b.txt"));
    let effect = task.advance(Event::Is(false));
    assert!(
        matches!(&effect, Effect::CopyFile(from, to) if text(from) == "/r/a.txt" && text(to) == "/r/b.txt")
    );
    let effect = task.advance(Event::Went(Ok(())));
    assert_eq!(
        report(&effect),
        Some(Ok("Copied contents of file /r/a.txt to /r/b.txt".to_string()))
    );
    let (mut task, _) = Task::begin(Prompted::Copy, &op, "b.txt", &None);
    task.advance(Event::Is(false));
    task.advance(Event::Is(false));
    let effect = task.advance(Event::Went(Err("full".to_string())));
    assert_eq!(
        report(&effect),
        Some(Err("Unable to copy from file /r/a.txt to /r/b.txt: full".to_string()))
    );
}

#[test]
fn directories_are_not_copied_as_files() {
    let op = operation("/r", "/r/d");
    let message = "Copying directories is not supported: /r/d is a directory".to_string();
    let (_, effect) = Task::begin(Prompted::Copy, &op, "e/", &None);
    assert_eq!(report(&effect), Some(Err(message.clone())));
    let (mut task, _) = Task::begin(Prompted::Copy, &op, "e", &None);
    assert_eq!(report(&task.advance(Event::Is(true))), Some(Err(message)));
}

#[test]
fn deleting_needs_an_explicit_yes() {
    let op = operation("/r", "/r/d");
    for input in ["", "n", "Y", "yes", " y"] {
        let (task, effect) = Task::begin(Prompted::Delete, &op, input, &None);
        assert_eq!(report(&effect), None, "{input}");
        assert_eq!(task.stage, Stage::Over);
    }
    let (_, effect) = Task::begin(Prompted::Delete, &operation("/r", "/r/.."), "y", &None);
    assert_eq!(
        report(&effect),
        Some(Err("Cannot operate on the parent directory entry".to_string()))
    );
    let (mut task, effect) = Task::begin(Prompted::Delete, &op, "y", &None);
    assert!(matches!(&effect, Effect::Inspect(p) if text(p) == "/r/d"));
    let effect = task.advance(Event::Found(Ok(true)));
    assert!(matches!(&effect, Effect::RemoveTree(p) if text(p) == "/r/d"));
    let effect = task.advance(Event::Went(Ok(())));
    assert_eq!(report(&effect), Some(Ok("Deleted directory: /r/d".to_string())));
}

#[test]
fn deleting_in_words() {
    let op = operation("/r", "/r/f");
    let (mut task, _) = Task::begin(Prompted::Delete, &op, "y", &None);
    let effect = task.advance(Event::Found(Err("gone".to_string())));
    assert_eq!(report(&effect), Some(Err("Unable to read /r/f: gone".to_string())));
    let (mut task, _) = Task::begin(Prompted::Delete, &op, "y", &None);
    let effect = task.advance(Event::Found(Ok(false)));
    assert!(matches!(&effect, Effect::RemoveFile(p) if text(p) == "/r/f"));
    let effect = task.advance(Event::Went(Ok(())));
    assert_eq!(report(&effect), Some(Ok("Deleted file: /r/f".to_string())));
    let (mut task, _) = Task::begin(Prompted::Delete, &op, "y", &None);
    task.advance(Event::Found(Ok(false)));
    let effect = task.advance(Event::Went(Err("busy".to_string())));
    assert_eq!(report(&effect), Some(Err("Unable to delete file /r/f: busy".to_string())));
    let (mut task, _) = Task::begin(Prompted::Delete, &op, "y", &None);
    task.advance(Event::Found(Ok(true)));
    let effect = task.advance(Event::Went(Err("busy".to_string())));
    assert_eq!(report(&effect), Some(Err("Unable to delete directory /r/f: busy".to_string())));
}

#[test]
fn a_cut_is_spent_and_a_copy_is_not() {
    let mut clipboard = Clipboard::new();
    assert_eq!(Task::paste(&clipboard, &path("/t")).err().unwrap(), "Nothing to paste");
    assert_eq!(
        clipboard.stage(&operation("/r", "/r/a"), false, true),
        Ok("Cut /r/a".to_string())
    );
    let (mut task, effect) = Task::paste(&clipboard, &path("/t")).ok().unwrap();
    assert!(matches!(&effect, Effect::AskExists(p) if text(p) == "/t/a"));
    assert_eq!(task.kind, TaskKind::Move { directory: false });
    let effect = task.advance(Event::Is(false));
    assert!(
        matches!(&effect, Effect::Move(from, to) if text(from) == "/r/a" && text(to) == "/t/a")
    );
    // A paste that was not carried out does not spend it.
    clipboard.pasted(false);
    assert!(clipboard.staged.is_some());
    clipboard.pasted(true);
    assert!(clipboard.staged.is_none());

    assert_eq!(
        clipboard.stage(&operation("/r", "/r/d"), true, false),
        Ok("Copied /r/d".to_string())
    );
    let (mut task, _) = Task::paste(&clipboard, &path("/t")).ok().unwrap();
    // Overwriting asks first here too.
    assert!(matches!(task.advance(Event::Is(true)), Effect::Confirm(_)));
    let effect = task.advance(Event::Typed("y".to_string()));
    assert!(
        matches!(&effect, Effect::CopyTree(from, to) if text(from) == "/r/d" && text(to) == "/t/d")
    );
    assert_eq!(
        report(&task.advance(Event::Went(Ok(())))),
        Some(Ok("Copied /r/d to /t/d".to_string()))
    );
    clipboard.pasted(true);
    assert!(clipboard.staged.is_some());
}

#[test]
fn what_cannot_be_staged_or_pasted() {
    let mut clipboard = Clipboard::new();
    assert!(clipboard.stage(&operation("/r", "/r/.."), true, true).is_err());
    assert!(clipboard.staged.is_none());
    assert!(clipboard.stage(&operation("/r", "/r/.."), true, false).is_ok());
    assert_eq!(Task::paste(&clipboard, &path("/t")).err().unwrap(), "Cannot paste /r/..");
    clipboard.stage(&operation("/r", "/r/d"), true, false).unwrap();
    assert_eq!(
        Task::paste(&clipboard, &path("/r/d/e")).err().unwrap(),
        "Cannot paste /r/d into itself"
    );
    assert!(Task::paste(&clipboard, &path("/r")).is_err());
    let (mut task, _) = Task::paste(&clipboard, &path("/t")).ok().unwrap();
    task.advance(Event::Is(false));
    assert_eq!(
        report(&task.advance(Event::Went(Err("full".to_string())))),
        Some(Err("Unable to copy /r/d to /t/d: full".to_string()))
    );
}

fn item(name: &str, is_dir: bool) -> ExplorerItem {
    ExplorerItem { path: path(name), is_dir }
}

#[test]
fn rows_of_the_explorer() {
    let root = path("/r/s");
    assert_eq!(row(&root, &item("/r/s/a.txt", false)), "a.txt");
    assert_eq!(row(&root, &item("/r/s/d", true)), "d/");
    assert_eq!(row(&root, &item("/r/s/..", true)), "../");
    assert_eq!(row(&root, &item("/x/y", false)), "/x/y");
    assert_eq!(row(&root, &item("/r/s/a//b/./c", true)), "a//b/./c/");
}

#[test]
fn opening_an_entry() {
    match open_item(&item("/r/s/../t", true), Action::Replace) {
        Opening::Explore(dir) => assert_eq!(text(&dir), "/r/t"),
        Opening::Open(_, _) => panic!("a directory is explored"),
    }
    match open_item(&item("/r/s/a", false), Action::VerticalSplit) {
        Opening::Open(file, action) => {
            assert_eq!(text(&file), "/r/s/a");
            assert_eq!(action, Action::VerticalSplit);
        }
        Opening::Explore(_) => panic!("a file is opened"),
    }
    assert_eq!(open_error(Some("no such thing"), &path("/a")), "no such thing");
    assert_eq!(open_error(None, &path("/a")), "unable to open \"/a\"");
    assert!(FileExplorer::descend(&item("/r/a", false)).is_none());
    assert_eq!(text(&FileExplorer::descend(&item("/r/./d", true)).unwrap()), "/r/d");
}

#[test]
fn yanking_a_path() {
    assert_eq!(yank_message("src/a.rs", '"'), "Yanked path src/a.rs to register \"");
    assert_eq!(yank_register(Some('x'), '"'), 'x');
    assert_eq!(yank_register(None, '"'), '"');
}

#[test]
fn the_explorer_restores_its_cursor() {
    let items = || vec![item("/r/..", true), item("/r/a", false), item("/r/d", true)];
    let explorer = file_explorer(Some(1), path("/r"), items(), || {});
    assert_eq!(explorer.picker.cursor, 1);
    assert!(explorer.picker.has_preview);
    assert_eq!(explorer.picker.columns.len(), 1);
    assert_eq!(explorer.picker.columns[0].name, "path");
    // Apart from that it opens like any other picker.
    let fresh = &explorer.picker;
    assert_eq!((fresh.mode, fresh.default_action), (PickerMode::Insert, Action::Replace));
    assert!(fresh.show_preview && fresh.truncate_start && !fresh.dynamic && !fresh.preview_visible);
    assert!(fresh.query.fields.is_empty() && fresh.preview_cache.entries.is_empty());
    assert_eq!((fresh.version, fresh.history_register, fresh.primary_column), (0, None, 0));
    assert_eq!((fresh.preview_scroll_offset, fresh.preview_scroll_cursor), (0, 0));
    assert_eq!((fresh.widths.as_slice(), fresh.preview_height), (&[4][..], 0));
    // The contents may have shrunk since.
    let explorer = file_explorer(Some(9), path("/r"), items(), || {});
    assert_eq!(explorer.picker.cursor, 2);
    let explorer = file_explorer(Some(9), path("/r"), vec![], || {});
    assert_eq!(explorer.picker.cursor, 0);
    let explorer = file_explorer(None, path("/r/x/.."), items(), || {});
    assert_eq!(explorer.picker.cursor, 0);
    assert_eq!(text(&explorer.ascend().unwrap()), "/");
    assert_eq!(text(&explorer.item(1).unwrap().path), "/r/a");
    assert!(explorer.item(3).is_none());
    let op = explorer.operation_on(&PickerAction { selection: 2, cursor: 5 }).unwrap();
    assert_eq!((text(&op.path), text(&op.root), op.cursor), ("/r/d".into(), "/r/x/..".into(), 5));
    assert_eq!(explorer.picker.key_handlers, explorer_keys());
    assert_eq!(explorer.picker.modal_key_handlers, explorer_modal_keys());
    assert_eq!(explorer_keys().len(), 9);
    assert_eq!(explorer_modal_keys().len(), 10);
}

#[test]
fn the_explorer_lists_its_rows() {
    let items = vec![item("/r/alpha", false), item("/r/beta", true)];
    let mut explorer = file_explorer(None, path("/r"), items, || {});
    let area = helix_picker::geometry::Rect { x: 0, y: 0, width: 40, height: 10 };
    let mut keys = Vec::new();
    for _ in 0..500 {
        keys = explorer.picker.render_picker(area, false).1;
        if keys.len() == 2 {
            break;
        }
    }
    keys.sort();
    assert_eq!(keys, vec![0, 1]);
    // The rows are matched by what they show.
    let query = PickerQuery { fields: vec![("path".to_string(), "^beta/$".to_string())] };
    explorer.picker.handle_prompt_change(query, false);
    for _ in 0..500 {
        keys = explorer.picker.render_picker(area, false).1;
        if keys.len() == 1 {
            break;
        }
    }
    assert_eq!(keys, vec![1]);
    // What is selected is an entry.
    let selected = explorer.picker.selection().unwrap();
    assert_eq!(text(&explorer.item(selected).unwrap().path), "/r/beta");
}
