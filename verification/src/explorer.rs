//! The file explorer: a picker of the entries of a directory, and the file
//! operations that it offers on them.
use vstd::prelude::*;
use vstd::string::*;
use vstd::utf8::*;
use crate::column;
use crate::column::Column;
use crate::geometry;
use crate::key;
use crate::key::{Chord, KeyCode, KeyEvent, KeyModifiers};
use crate::matcher;
use crate::path;
use crate::path::FilePath;
use crate::picker;
use crate::picker::{Action, Picker};
use crate::text;

verus! {

/// A row of the explorer: an entry of the directory, and whether it is a
/// directory itself.
pub struct ExplorerItem {
    pub path: FilePath,
    pub is_dir: bool,
}

/// Everything a file operation needs from the explorer it was triggered from.
pub struct FileOperation {
    /// The entry the operation acts on, i.e. the explorer's selected row.
    pub path: FilePath,
    /// The directory the explorer is showing.
    pub root: FilePath,
    /// Where the picker's cursor sits, so it can be restored once the explorer
    /// is reread.
    pub cursor: u32,
}

/// Whether a path ends by pointing upwards.
pub open spec fn ends_upwards(p: Seq<u8>) -> bool {
    path::names(p).len() > 0 && path::is_parent_dir(path::names(p).last())
}

/// A path with every `.` and `..` resolved.
pub open spec fn normalized(p: Seq<u8>) -> Seq<u8> {
    path::rendered(path::absolute(p), path::normal(path::names(p)))
}

/// Whether a path, once resolved, lies below the root.
pub open spec fn lies_below(root: Seq<u8>, p: Seq<u8>) -> bool {
    let above = path::normal(path::names(root));
    let parts = path::normal(path::names(p));
    path::absolute(root) == path::absolute(p) && path::begins_with(parts, above) && parts.len()
        > above.len()
}

/// Why destructive operations may not act on a path, if they may not.
pub open spec fn refusal(root: Seq<u8>, p: Seq<u8>) -> Option<Seq<char>> {
    if ends_upwards(p) {
        Some("Cannot operate on the parent directory entry"@)
    } else if !lies_below(root, p) {
        Some(
            text::lossy_text(normalized(p)) + " is outside of the file explorer root "@
                + text::lossy_text(normalized(root)),
        )
    } else {
        None
    }
}

/// Checks that `path` is an entry inside `root` that destructive operations may
/// act on.
///
/// The explorer inserts a `..` row at the top of the list for navigating
/// upwards. Destructive operations must refuse it: it resolves to the parent of
/// the explorer root, so deleting or moving it would act well outside anything
/// the user can see.
pub fn check_within_root(root: &FilePath, path: &FilePath) -> (checked: Result<(), String>)
    ensures
        match checked {
            Ok(_) => refusal(root@, path@) is None,
            Err(message) => refusal(root@, path@) == Some(message@),
        },
{
    let names: Vec<Vec<u8>> = path.component_names();
    let ghost all = path::names(path@);
    assert(all.len() == names@.len());
    if names.len() > 0 {
        assert(all.last() == names@[names@.len() - 1]@);
        let up: [u8; 2] = [path::DOT, path::DOT];
        assert(up@ =~= seq![path::DOT, path::DOT]);
        if path::same_bytes(names[names.len() - 1].as_slice(), &up) {
            return Err("Cannot operate on the parent directory entry".to_string());
        }
    }
    let above: Vec<Vec<u8>> = path::normalize(root);
    let parts: Vec<Vec<u8>> = path::normalize(path);
    assert(path::pieces_view(above@).len() == above@.len());
    assert(path::pieces_view(parts@).len() == parts@.len());
    if root.is_absolute() != path.is_absolute() || !path::prefix_of(&above, &parts) || parts.len()
        <= above.len() {
        let mut message: String = path::render(path.is_absolute(), &parts).display();
        message.append(" is outside of the file explorer root ");
        message.append(path::render(root.is_absolute(), &above).display().as_str());
        assert(message@ =~= refusal(root@, path@).unwrap());
        return Err(message);
    }
    Ok(())
}

/// The name that stands for the home directory at the start of a path.
pub open spec fn tilde() -> Seq<u8> {
    seq![0x7Eu8]
}

/// A path with the `~` that it starts with replaced by the home directory, if
/// it is known.
pub open spec fn expanded(p: Seq<u8>, home: Option<Seq<u8>>) -> Seq<u8> {
    match home {
        Some(dir) => if !path::absolute(p) && path::names(p).len() > 0 && path::names(p)[0]
            == tilde() {
            path::joined(dir, path::tail_from(p, 1))
        } else {
            p
        },
        None => p,
    }
}

/// Where a typed destination leads.
pub open spec fn destination(anchor: Seq<u8>, input: Seq<u8>, home: Option<Seq<u8>>) -> Seq<u8> {
    let given = expanded(input, home);
    if path::absolute(given) {
        given
    } else {
        match path::parent_of(anchor) {
            Some(parent) => path::joined(parent, given),
            None => given,
        }
    }
}

/// A path that may be there.
pub open spec fn bytes_of(home: Option<FilePath>) -> Option<Seq<u8>> {
    match home {
        Some(dir) => Some(dir@),
        None => None,
    }
}

/// A path with the `~` that it starts with replaced by the home directory.
pub fn expand_tilde(p: &FilePath, home: &Option<FilePath>) -> (given: FilePath)
    ensures
        given@ == expanded(p@, bytes_of(*home)),
{
    if let Some(dir) = home {
        let names: Vec<Vec<u8>> = p.component_names();
        let ghost all = path::names(p@);
        assert(all.len() == names@.len());
        if !p.is_absolute() && names.len() > 0 {
            assert(all[0] == names@[0]@);
            let sign: [u8; 1] = [0x7E];
            assert(sign@ =~= tilde());
            if path::same_bytes(names[0].as_slice(), &sign) {
                let tail: FilePath = FilePath { bytes: p.without_components(1) };
                return dir.join(&tail);
            }
        }
    }
    p.duplicate()
}

/// Resolves the destination typed into a move, rename, copy or create prompt.
///
/// `~` is expanded, and a relative path is taken relative to the directory that
/// holds `anchor` rather than to the process' working directory, so that typing
/// a bare name next to the entry the prompt names does what it looks like it
/// does. `home` is the home directory, where it is known.
pub fn resolve_destination(anchor: &FilePath, input: &str, home: &Option<FilePath>) -> (to: FilePath)
    ensures
        to@ == destination(anchor@, encode_utf8(input@), bytes_of(*home)),
{
    let given: FilePath = expand_tilde(&FilePath::from_text(input), home);
    if given.is_absolute() {
        return given;
    }
    match anchor.parent() {
        Some(parent) => parent.join(&given),
        None => given,
    }
}

/// How far the prompt's cursor goes back to stand just before the file
/// extension of `path`, which is where a rename usually wants to start: the
/// extension normally stays as it is. What counts is the characters that the
/// extension is shown with, and the dot.
pub open spec fn back_over_extension(p: Seq<u8>) -> Option<int> {
    match path::extension_of(p) {
        Some(ext) => Some(text::lossy_text(ext).len() as int + 1),
        None => None,
    }
}

/// Whether going back by a number of characters from the end of a name leads
/// to just before its extension: the dot comes next, and then the extension.
pub open spec fn leads_before(name: Seq<char>, ext: Seq<char>, back: int) -> bool {
    0 < back <= name.len() && name.skip(name.len() - back) == seq!['.'] + ext
}

/// A name in UTF-8 reads as what comes before a dot, the dot, and what comes
/// behind it.
proof fn lemma_reads_around_dot(name: Seq<u8>, dot: int)
    requires
        valid_utf8(name),
        0 <= dot < name.len(),
        name[dot] == path::DOT,
    ensures
        valid_utf8(name.subrange(dot + 1, name.len() as int)),
        decode_utf8(name) == decode_utf8(name.subrange(0, dot)) + seq!['.'] + decode_utf8(
            name.subrange(dot + 1, name.len() as int),
        ),
{
    let rest = name.subrange(dot, name.len() as int);
    is_char_boundary_iff_not_is_continuation_byte(name, dot);
    valid_utf8_split(name, dot);
    decode_utf8_split(name, dot);
    assert(rest[0] == path::DOT);
    assert(pop_first_scalar(rest) =~= name.subrange(dot + 1, name.len() as int));
    let c: u8 = rest[0];
    assert(c == 46u8 ==> c & 0x7f == 46u8) by (bit_vector);
    assert(decode_utf8(rest) =~= seq!['.'] + decode_utf8(pop_first_scalar(rest)));
}

/// How far the prompt's cursor goes back to stand just before the file
/// extension of `path`. Where the file name is text, that is where the cursor
/// ends up; how a name that is not is shown is only named.
pub fn before_extension(path: &FilePath) -> (back: Option<usize>)
    ensures
        match back {
            Some(n) => back_over_extension(path@) == Some(n as int),
            None => back_over_extension(path@) is None,
        },
        back matches Some(n) ==> {
            let name = path::file_name_of(path@).unwrap();
            valid_utf8(name) ==> leads_before(
                decode_utf8(name),
                decode_utf8(path::extension_of(path@).unwrap()),
                n as int,
            )
        },
{
    match path.file_name() {
        None => None,
        Some(name) => match path.extension() {
            Some(ext) => {
                proof {
                    path::lemma_last_dot(name@);
                }
                let whole: usize = name.len();
                assert(ext@.len() < whole);
                let shown: String = text::to_lossy(ext.as_slice());
                let count: usize = text::chars_of(shown.as_str()).len();
                proof {
                    if valid_utf8(name@) {
                        let dot = path::last_dot(name@).unwrap();
                        lemma_reads_around_dot(name@, dot);
                        let whole = decode_utf8(name@);
                        assert(whole.skip(whole.len() - (count + 1)) =~= seq!['.'] + decode_utf8(
                            ext@,
                        ));
                    }
                }
                Some(count + 1)
            },
            None => None,
        },
    }
}

/// The operations that ask for something first.
#[derive(Debug, Clone, Copy, PartialEq, Eq, Structural)]
pub enum Prompted {
    Create,
    Move,
    Rename,
    Delete,
    Copy,
}

/// The operations that the explorer offers on its selected entry.
#[derive(Debug, Clone, Copy, PartialEq, Eq, Structural)]
pub enum Operation {
    /// One that asks for something first.
    Prompted(Prompted),
    /// Yank the path to a register.
    YankPath,
    /// Stage the entry for moving.
    Cut,
    /// Stage the entry for copying.
    Stage,
    /// Paste what is staged into the directory that is shown.
    Paste,
    /// Show the directory above.
    Ascend,
    /// Show the selected directory.
    Descend,
}

/// A line to be asked for.
pub struct PromptLine {
    pub prompt: String,
    /// What is filled in already.
    pub prefill: String,
    /// How far the cursor goes back from the end of that.
    pub back: Option<usize>,
}

/// The name of a file as text, empty where it has none.
pub open spec fn name_text(p: Seq<u8>) -> Seq<char> {
    match path::file_name_of(p) {
        Some(name) => text::lossy_text(name),
        None => text::lossy_text(Seq::<u8>::empty()),
    }
}

/// The directory that holds a file as text, with a separator behind it.
pub open spec fn directory_text(p: Seq<u8>) -> Seq<char> {
    match path::parent_of(p) {
        Some(parent) => text::lossy_text(parent) + "/"@,
        None => Seq::<char>::empty(),
    }
}

/// What an operation asks.
pub open spec fn question(kind: Prompted, p: Seq<u8>, is_dir: bool) -> Seq<char> {
    match kind {
        Prompted::Create => "Create: "@,
        Prompted::Move => "Move "@ + text::lossy_text(p) + " -> "@,
        Prompted::Rename => "Rename "@ + name_text(p) + " -> "@,
        Prompted::Delete => if is_dir {
            "Delete "@ + text::lossy_text(p) + " and everything in it? (y/n): "@
        } else {
            "Delete "@ + text::lossy_text(p) + "? (y/n): "@
        },
        Prompted::Copy => "Copy "@ + text::lossy_text(p) + " -> "@,
    }
}

/// What an operation fills in.
pub open spec fn suggestion(kind: Prompted, p: Seq<u8>) -> Seq<char> {
    match kind {
        Prompted::Create | Prompted::Copy => directory_text(p),
        Prompted::Move => text::lossy_text(p),
        Prompted::Rename => name_text(p),
        Prompted::Delete => Seq::<char>::empty(),
    }
}

/// Whether an operation acts on the selected entry itself in a way that cannot
/// be taken back.
pub open spec fn destructive(kind: Prompted) -> bool {
    kind == Prompted::Move || kind == Prompted::Rename || kind == Prompted::Delete
}

/// The name of a file as text.
fn file_name_text(path: &FilePath) -> (name: String)
    ensures
        name@ == name_text(path@),
{
    match path.file_name() {
        Some(name) => text::to_lossy(name.as_slice()),
        None => {
            let empty: Vec<u8> = Vec::new();
            text::to_lossy(empty.as_slice())
        },
    }
}

/// The directory that holds a file as text.
fn parent_text(path: &FilePath) -> (dir: String)
    ensures
        dir@ == directory_text(path@),
{
    match path.parent() {
        Some(parent) => {
            let mut dir: String = parent.display();
            dir.append("/");
            dir
        },
        None => String::new(),
    }
}

/// Begins an operation that asks for something first: the line to ask for, or
/// why the operation may not act on the entry. `is_dir` says whether the entry
/// is a directory.
pub fn begin(kind: Prompted, op: &FileOperation, is_dir: bool) -> (line: Result<PromptLine, String>)
    ensures
        match line {
            Ok(line) => {
                &&& destructive(kind) ==> refusal(op.root@, op.path@) is None
                &&& line.prompt@ == question(kind, op.path@, is_dir)
                &&& line.prefill@ == suggestion(kind, op.path@)
                &&& match line.back {
                    Some(n) => (kind == Prompted::Move || kind == Prompted::Rename)
                        && back_over_extension(op.path@) == Some(n as int),
                    None => (kind == Prompted::Move || kind == Prompted::Rename)
                        ==> back_over_extension(op.path@) is None,
                }
            },
            Err(message) => destructive(kind) && refusal(op.root@, op.path@) == Some(message@),
        },
{
    let path: &FilePath = &op.path;
    let checked: bool = match kind {
        Prompted::Move | Prompted::Rename | Prompted::Delete => true,
        _ => false,
    };
    if checked {
        if let Err(message) = check_within_root(&op.root, path) {
            return Err(message);
        }
    }
    let mut prompt: String = String::new();
    match kind {
        Prompted::Create => {
            prompt.append("Create: ");
        },
        Prompted::Move => {
            prompt.append("Move ");
            prompt.append(path.display().as_str());
            prompt.append(" -> ");
        },
        Prompted::Rename => {
            prompt.append("Rename ");
            prompt.append(file_name_text(path).as_str());
            prompt.append(" -> ");
        },
        Prompted::Delete => {
            prompt.append("Delete ");
            prompt.append(path.display().as_str());
            if is_dir {
                prompt.append(" and everything in it? (y/n): ");
            } else {
                prompt.append("? (y/n): ");
            }
        },
        Prompted::Copy => {
            prompt.append("Copy ");
            prompt.append(path.display().as_str());
            prompt.append(" -> ");
        },
    }
    assert(prompt@ =~= question(kind, op.path@, is_dir));
    let prefill: String = match kind {
        Prompted::Create | Prompted::Copy => parent_text(path),
        Prompted::Move => path.display(),
        Prompted::Rename => file_name_text(path),
        Prompted::Delete => String::new(),
    };
    let back: Option<usize> = match kind {
        Prompted::Move | Prompted::Rename => before_extension(path),
        _ => None,
    };
    Ok(PromptLine { prompt, prefill, back })
}

/// The operation that a key is bound to.
pub open spec fn bound_operation(event: KeyEvent) -> Option<Operation> {
    if event == key::alt(KeyCode::Char('n')) {
        Some(Operation::Prompted(Prompted::Create))
    } else if event == key::alt(KeyCode::Char('m')) {
        Some(Operation::Prompted(Prompted::Move))
    } else if event == key::alt(KeyCode::Char('r')) {
        Some(Operation::Prompted(Prompted::Rename))
    } else if event == key::alt(KeyCode::Char('x')) {
        Some(Operation::Prompted(Prompted::Delete))
    } else if event == key::alt(KeyCode::Char('c')) {
        Some(Operation::Prompted(Prompted::Copy))
    } else if event == key::alt(KeyCode::Char('y')) {
        Some(Operation::YankPath)
    } else if event == key::alt(KeyCode::Char('t')) {
        Some(Operation::Cut)
    } else if event == key::alt(KeyCode::Char('w')) {
        Some(Operation::Stage)
    } else if event == key::alt(KeyCode::Char('p')) {
        Some(Operation::Paste)
    } else {
        None
    }
}

/// The operation that a key is bound to in the normal mode of a modal picker.
pub open spec fn modal_operation(event: KeyEvent) -> Option<Operation> {
    if event == key::key(KeyCode::Char('h')) {
        Some(Operation::Ascend)
    } else if event == key::key(KeyCode::Char('l')) {
        Some(Operation::Descend)
    } else if event == key::key(KeyCode::Char('a')) {
        Some(Operation::Prompted(Prompted::Create))
    } else if event == key::key(KeyCode::Char('r')) {
        Some(Operation::Prompted(Prompted::Rename))
    } else if event == key::key(KeyCode::Char('d')) {
        Some(Operation::Cut)
    } else if event == key::key(KeyCode::Char('y')) {
        Some(Operation::Stage)
    } else if event == key::key(KeyCode::Char('p')) {
        Some(Operation::Paste)
    } else if event == key::key(KeyCode::Char('D')) {
        Some(Operation::Prompted(Prompted::Delete))
    } else if event == key::key(KeyCode::Char('Y')) {
        Some(Operation::YankPath)
    } else if event == key::key(KeyCode::Char('m')) {
        Some(Operation::Prompted(Prompted::Move))
    } else {
        None
    }
}

/// The operation that a key is bound to. `Alt-d` is left to the prompt, so
/// deleting is spelled `Alt-x`.
pub fn operation_for(event: KeyEvent) -> (operation: Option<Operation>)
    ensures
        operation == bound_operation(event),
{
    if event.modifiers.chord() != Chord::Alt {
        return None;
    }
    match event.code {
        KeyCode::Char(c) => match c {
            'n' => Some(Operation::Prompted(Prompted::Create)),
            'm' => Some(Operation::Prompted(Prompted::Move)),
            'r' => Some(Operation::Prompted(Prompted::Rename)),
            'x' => Some(Operation::Prompted(Prompted::Delete)),
            'c' => Some(Operation::Prompted(Prompted::Copy)),
            'y' => Some(Operation::YankPath),
            't' => Some(Operation::Cut),
            'w' => Some(Operation::Stage),
            'p' => Some(Operation::Paste),
            _ => None,
        },
        _ => None,
    }
}

/// The operation that a key is bound to in the normal mode of a modal picker:
/// there, keys never type into the query, so they need no modifier.
pub fn modal_operation_for(event: KeyEvent) -> (operation: Option<Operation>)
    ensures
        operation == modal_operation(event),
{
    if event.modifiers.chord() != Chord::Bare {
        return None;
    }
    match event.code {
        KeyCode::Char(c) => match c {
            'h' => Some(Operation::Ascend),
            'l' => Some(Operation::Descend),
            'a' => Some(Operation::Prompted(Prompted::Create)),
            'r' => Some(Operation::Prompted(Prompted::Rename)),
            'd' => Some(Operation::Cut),
            'y' => Some(Operation::Stage),
            'p' => Some(Operation::Paste),
            'D' => Some(Operation::Prompted(Prompted::Delete)),
            'Y' => Some(Operation::YankPath),
            'm' => Some(Operation::Prompted(Prompted::Move)),
            _ => None,
        },
        _ => None,
    }
}

/// A character with one modifier, or none.
fn character(c: char, alt: bool) -> (event: KeyEvent)
    ensures
        event == (if alt {
            key::alt(KeyCode::Char(c))
        } else {
            key::key(KeyCode::Char(c))
        }),
{
    KeyEvent {
        code: KeyCode::Char(c),
        modifiers: KeyModifiers { shift: false, control: false, alt, meta: false },
    }
}

/// The keys of a list of characters, with `Alt` or on their own.
fn keys_of(letters: &str, alt: bool) -> (keys: Vec<KeyEvent>)
    ensures
        keys@.len() == letters@.len(),
        forall|i: int|
            0 <= i < keys@.len() ==> #[trigger] keys@[i] == (if alt {
                key::alt(KeyCode::Char(letters@[i]))
            } else {
                key::key(KeyCode::Char(letters@[i]))
            }),
{
    let chars: Vec<char> = text::chars_of(letters);
    let mut keys: Vec<KeyEvent> = Vec::new();
    let mut i: usize = 0;
    while i < chars.len()
        invariant
            chars@ == letters@,
            keys@.len() == i <= chars@.len(),
            forall|j: int|
                0 <= j < i ==> #[trigger] keys@[j] == (if alt {
                    key::alt(KeyCode::Char(letters@[j]))
                } else {
                    key::key(KeyCode::Char(letters@[j]))
                }),
        decreases chars@.len() - i,
    {
        keys.push(character(chars[i], alt));
        i += 1;
    }
    keys
}

/// The extra keys of an explorer.
pub fn explorer_keys() -> (keys: Vec<KeyEvent>)
    ensures
        forall|event: KeyEvent| keys@.contains(event) <==> bound_operation(event) is Some,
{
    let keys: Vec<KeyEvent> = keys_of("nmrxcytwp", true);
    proof {
        reveal_strlit("nmrxcytwp");
        assert forall|event: KeyEvent| keys@.contains(event) <==> bound_operation(event) is Some by {
            if bound_operation(event) is Some {
                assert(keys@[0] == event || keys@[1] == event || keys@[2] == event || keys@[3] == event
                    || keys@[4] == event || keys@[5] == event || keys@[6] == event || keys@[7] == event
                    || keys@[8] == event);
            }
        }
    }
    keys
}

/// The extra keys of an explorer in the normal mode of a modal picker.
pub fn explorer_modal_keys() -> (keys: Vec<KeyEvent>)
    ensures
        forall|event: KeyEvent| keys@.contains(event) <==> modal_operation(event) is Some,
{
    let keys: Vec<KeyEvent> = keys_of("hlardypDYm", false);
    proof {
        reveal_strlit("hlardypDYm");
        assert forall|event: KeyEvent| keys@.contains(event) <==> modal_operation(event) is Some by {
            if modal_operation(event) is Some {
                assert(keys@[0] == event || keys@[1] == event || keys@[2] == event || keys@[3] == event
                    || keys@[4] == event || keys@[5] == event || keys@[6] == event || keys@[7] == event
                    || keys@[8] == event || keys@[9] == event);
            }
        }
    }
    keys
}

/// The file explorer.
pub struct FileExplorer {
    /// The rows; an item's key is its index.
    pub picker: Picker,
    /// The directory that is shown.
    pub root: FilePath,
    pub items: Vec<ExplorerItem>,
}

/// The text of a row: the entry's path below the root, with a `/` behind a
/// directory.
pub open spec fn row_text(root: Seq<u8>, p: Seq<u8>, is_dir: bool) -> Seq<char> {
    let name = text::lossy_text(
        match path::stripped(p, root) {
            Some(rest) => rest,
            None => p,
        },
    );
    if is_dir {
        name + "/"@
    } else {
        name
    }
}

/// The rows as they are searched: each entry under its index.
pub open spec fn rows(root: Seq<u8>, items: Seq<ExplorerItem>) -> Seq<(u64, Seq<Seq<char>>)> {
    Seq::new(
        items.len(),
        |i: int| (i as u64, seq![row_text(root, items[i].path@, items[i].is_dir)]),
    )
}

/// The text of a row.
pub fn row(root: &FilePath, item: &ExplorerItem) -> (shown: String)
    ensures
        shown@ == row_text(root@, item.path@, item.is_dir),
{
    let mut shown: String = match item.path.strip_prefix(root) {
        Some(rest) => rest.display(),
        None => item.path.display(),
    };
    if item.is_dir {
        shown.append("/");
    }
    shown
}

/// Where the cursor starts among a number of entries. They may be fewer than
/// when the cursor was captured, for instance because the user just deleted
/// the last one.
pub open spec fn starting_cursor(cursor: Option<u32>, len: int) -> int {
    geometry::least(
        match cursor {
            Some(c) => c as int,
            None => 0,
        },
        geometry::monus(len, 1) % 0x1_0000_0000,
    )
}

/// What opening an entry leads to.
pub enum Opening {
    /// Another explorer, of this directory.
    Explore(FilePath),
    /// The file, opened in this way.
    Open(FilePath, Action),
}

/// Opens an entry: a directory is explored, a file is opened.
pub fn open_item(item: &ExplorerItem, action: Action) -> (opening: Opening)
    ensures
        if item.is_dir {
            opening matches Opening::Explore(dir) && dir@ == normalized(item.path@)
        } else {
            opening matches Opening::Open(file, how) && file@ == item.path@ && how == action
        },
{
    if item.is_dir {
        let parts: Vec<Vec<u8>> = path::normalize(&item.path);
        Opening::Explore(path::render(item.path.is_absolute(), &parts))
    } else {
        Opening::Open(item.path.duplicate(), action)
    }
}

/// What is said of a file that cannot be opened: the reason, where there is
/// one.
pub fn open_error(reason: Option<&str>, path: &FilePath) -> (message: String)
    ensures
        message@ == (match reason {
            Some(text) => text@,
            None => "unable to open \""@ + text::lossy_text(path@) + "\""@,
        }),
{
    let mut message: String = String::new();
    match reason {
        Some(text) => {
            message.append(text);
            assert(message@ =~= text@);
        },
        None => {
            message.append("unable to open \"");
            message.append(path.display().as_str());
            message.append("\"");
            assert(message@ =~= "unable to open \""@ + text::lossy_text(path@) + "\""@);
        },
    }
    message
}

/// Builds the file explorer of a directory with the given entries, and no
/// others: there is no handle yet to add any through. `cursor` restores the
/// position of the picker's cursor, for when the explorer is reopened after a
/// file operation.
pub fn file_explorer<F: Fn() + Sync + Send + 'static>(
    cursor: Option<u32>,
    root: FilePath,
    items: Vec<ExplorerItem>,
    notify: F,
) -> (explorer: FileExplorer)
    requires
        items@.len() <= matcher::CAPACITY,
        call_requires(notify, ()),
    ensures
        explorer.root == root,
        explorer.items == items,
        explorer.lists_its_entries(),
        forall|i: int|
            0 <= i < items@.len() ==> matcher::offered(
                matcher::items(explorer.picker.matcher),
                i as u64,
                seq![row_text(root@, (#[trigger] items@[i]).path@, items@[i].is_dir)],
            ),
        explorer.picker.wf(),
        explorer.picker.is_untouched(0, 0),
        explorer.picker.matches() == Seq::<u64>::empty(),
        explorer.picker.columns@.len() == 1,
        explorer.picker.columns@[0].name@ == "path"@,
        explorer.picker.columns@[0].filter,
        !explorer.picker.columns@[0].hidden,
        explorer.picker.cursor == starting_cursor(cursor, items@.len() as int),
        explorer.picker.has_preview,
        forall|event: KeyEvent|
            explorer.picker.key_handlers@.contains(event) <==> bound_operation(event) is Some,
        forall|event: KeyEvent|
            explorer.picker.modal_key_handlers@.contains(event) <==> modal_operation(event)
                is Some,
{
    let last: u32 = (items.len().saturating_sub(1) as u64 % 0x1_0000_0000) as u32;
    let wanted: u32 = match cursor {
        Some(c) => c,
        None => 0,
    };
    let start: u32 = if wanted <= last { wanted } else { last };
    let mut columns: Vec<Column> = Vec::new();
    columns.push(Column::new("path"));
    proof {
        assert(columns@.drop_last() =~= Seq::<Column>::empty());
        reveal_with_fuel(column::filter_names, 2);
        assert(column::filter_names(columns@).len() == 1);
    }
    let mut options: Vec<(u64, Vec<String>)> = Vec::new();
    let mut i: usize = 0;
    while i < items.len()
        invariant
            options@.len() == i <= items@.len(),
            forall|j: int|
                0 <= j < i ==> (#[trigger] options@[j]).0 == j && options@[j].1@.len() == 1
                    && options@[j].1@[0]@ == row_text(root@, items@[j].path@, items@[j].is_dir),
        decreases items@.len() - i,
    {
        let mut cells: Vec<String> = Vec::new();
        cells.push(row(&root, &items[i]));
        options.push((i as u64, cells));
        i += 1;
    }
    let ghost shown = columns@;
    let picker: Picker = Picker::new(columns, 0, &options, notify).with_initial_cursor(
        start,
    ).with_preview().with_key_handlers(explorer_keys()).with_modal_key_handlers(
        explorer_modal_keys(),
    );
    proof {
        reveal_with_fuel(column::filter_cells, 2);
        assert forall|j: int| 0 <= j < items@.len() implies matcher::offered(
            matcher::items(picker.matcher),
            j as u64,
            seq![row_text(root@, (#[trigger] items@[j]).path@, items@[j].is_dir)],
        ) by {
            assert(options@[j].0 == j);
            assert(column::filter_cells(shown, options@[j].1@) =~= seq![
                row_text(root@, items@[j].path@, items@[j].is_dir),
            ]);
        }
        assert forall|j: int| 0 <= j < items@.len() implies picker::searchable(shown, options@)[j]
            == #[trigger] rows(root@, items@)[j] by {
            assert(options@[j].0 == j);
            assert(column::filter_cells(shown, options@[j].1@) =~= seq![
                row_text(root@, items@[j].path@, items@[j].is_dir),
            ]);
        }
        assert(picker::searchable(shown, options@) =~= rows(root@, items@));
    }
    FileExplorer { picker, root, items }
}

impl FileExplorer {
    /// Whether the rows to search are the entries, each under its index, and
    /// nothing can be added to them.
    pub open spec fn lists_its_entries(&self) -> bool {
        &&& !matcher::shared(self.picker.matcher)
        &&& matcher::contents(self.picker.matcher) == rows(self.root@, self.items@)
        &&& self.items@.len() <= matcher::CAPACITY
    }

    /// The entry with a key.
    pub fn item(&self, key: u64) -> (item: Option<&ExplorerItem>)
        ensures
            match item {
                Some(found) => key < self.items@.len() && *found == self.items@[key as int],
                None => key >= self.items@.len(),
            },
    {
        if key < self.items.len() as u64 {
            Some(&self.items[key as usize])
        } else {
            None
        }
    }

    /// What an operation on the entry with a key needs.
    pub fn operation_on(&self, args: &picker::PickerAction) -> (op: Option<FileOperation>)
        ensures
            match op {
                Some(op) => args.selection < self.items@.len() && op.path@
                    == self.items@[args.selection as int].path@ && op.root@ == self.root@
                    && op.cursor == args.cursor,
                None => args.selection >= self.items@.len(),
            },
    {
        match self.item(args.selection) {
            Some(item) => Some(
                FileOperation {
                    path: item.path.duplicate(),
                    root: self.root.duplicate(),
                    cursor: args.cursor,
                },
            ),
            None => None,
        }
    }

    /// The directory above the one that is shown, if there is one.
    pub fn ascend(&self) -> (dir: Option<FilePath>)
        ensures
            match dir {
                Some(d) => path::parent_of(normalized(self.root@)) == Some(d@),
                None => path::parent_of(normalized(self.root@)) is None,
            },
    {
        let parts: Vec<Vec<u8>> = path::normalize(&self.root);
        path::render(self.root.is_absolute(), &parts).parent()
    }

    /// The selected directory. There is nothing to walk into in a file.
    pub fn descend(item: &ExplorerItem) -> (dir: Option<FilePath>)
        ensures
            match dir {
                Some(d) => item.is_dir && d@ == normalized(item.path@),
                None => !item.is_dir,
            },
    {
        match open_item(item, Action::Replace) {
            Opening::Explore(dir) => Some(dir),
            Opening::Open(_, _) => None,
        }
    }
}

/// What is said of a yanked path.
pub fn yank_message(path: &str, register: char) -> (message: String)
    ensures
        message@ == ("Yanked path "@ + path@ + " to register "@).push(register),
{
    let mut message: String = String::new();
    message.append("Yanked path ");
    message.append(path);
    message.append(" to register ");
    message.push(register);
    assert(message@ =~= ("Yanked path "@ + path@ + " to register "@).push(register));
    message
}

/// The register that a path is yanked to: the selected one, or else the one
/// for yanking.
pub fn yank_register(selected: Option<char>, default_register: char) -> (register: char)
    ensures
        register == (match selected {
            Some(r) => r,
            None => default_register,
        }),
{
    match selected {
        Some(r) => r,
        None => default_register,
    }
}

/// An entry that is staged to be pasted.
pub struct Staged {
    pub path: FilePath,
    pub is_dir: bool,
    /// Whether it is moved by the paste, rather than copied.
    pub cut: bool,
}

/// What the explorer has staged.
pub struct Clipboard {
    pub staged: Option<Staged>,
}

/// Whether a path, once resolved, is another one or lies below it.
pub open spec fn lies_within(p: Seq<u8>, q: Seq<u8>) -> bool {
    path::absolute(p) == path::absolute(q) && path::begins_with(
        path::normal(path::names(q)),
        path::normal(path::names(p)),
    )
}

/// Where a staged entry is pasted, or why it is not.
pub open spec fn paste_target(staged: Option<Staged>, root: Seq<u8>) -> Result<Seq<u8>, Seq<char>> {
    match staged {
        None => Err("Nothing to paste"@),
        Some(entry) => match path::file_name_of(entry.path@) {
            None => Err("Cannot paste "@ + text::lossy_text(entry.path@)),
            Some(name) => {
                let to = path::joined(root, name);
                if lies_within(entry.path@, to) {
                    Err(
                        "Cannot paste "@ + text::lossy_text(entry.path@) + " into itself"@,
                    )
                } else {
                    Ok(to)
                }
            },
        },
    }
}

impl Clipboard {
    /// A clipboard with nothing staged.
    pub fn new() -> (clipboard: Clipboard)
        ensures
            clipboard.staged is None,
    {
        Clipboard { staged: None }
    }

    /// Stages an entry in place of what was staged. An entry that destructive
    /// operations may not act on cannot be cut.
    pub fn stage(&mut self, op: &FileOperation, is_dir: bool, cut: bool) -> (staged: Result<
        String,
        String,
    >)
        ensures
            match staged {
                Ok(message) => {
                    &&& cut ==> refusal(op.root@, op.path@) is None
                    &&& final(self).staged matches Some(entry) && entry.path@ == op.path@
                        && entry.is_dir == is_dir && entry.cut == cut
                    &&& message@ == (if cut {
                        "Cut "@
                    } else {
                        "Copied "@
                    }) + text::lossy_text(op.path@)
                },
                Err(message) => {
                    &&& cut
                    &&& refusal(op.root@, op.path@) == Some(message@)
                    &&& *final(self) == *old(self)
                },
            },
    {
        if cut {
            if let Err(message) = check_within_root(&op.root, &op.path) {
                return Err(message);
            }
        }
        let mut message: String = String::new();
        if cut {
            message.append("Cut ");
        } else {
            message.append("Copied ");
        }
        message.append(op.path.display().as_str());
        assert(message@ =~= (if cut {
            "Cut "@
        } else {
            "Copied "@
        }) + text::lossy_text(op.path@));
        self.staged = Some(Staged { path: op.path.duplicate(), is_dir, cut });
        Ok(message)
    }

    /// Where what is staged goes when it is pasted into a directory, or why
    /// it cannot be pasted there.
    pub fn target(&self, root: &FilePath) -> (to: Result<FilePath, String>)
        ensures
            match to {
                Ok(p) => paste_target(self.staged, root@) == Ok::<Seq<u8>, Seq<char>>(p@),
                Err(message) => paste_target(self.staged, root@) == Err::<Seq<u8>, Seq<char>>(
                    message@,
                ),
            },
    {
        let entry: &Staged = match &self.staged {
            Some(entry) => entry,
            None => return Err("Nothing to paste".to_string()),
        };
        let mut message: String = String::new();
        message.append("Cannot paste ");
        message.append(entry.path.display().as_str());
        match entry.path.file_name() {
            None => {
                assert(message@ =~= "Cannot paste "@ + text::lossy_text(entry.path@));
                Err(message)
            },
            Some(name) => {
                let to: FilePath = root.join(&FilePath { bytes: name });
                let inner: Vec<Vec<u8>> = path::normalize(&to);
                let outer: Vec<Vec<u8>> = path::normalize(&entry.path);
                if entry.path.is_absolute() == to.is_absolute() && path::prefix_of(&outer, &inner) {
                    message.append(" into itself");
                    assert(message@ =~= "Cannot paste "@ + text::lossy_text(entry.path@)
                        + " into itself"@);
                    return Err(message);
                }
                Ok(to)
            },
        }
    }

    /// Takes note of a paste that has been carried out, or not: a cut is spent
    /// by the paste that carries it out, while a copy stays staged and can be
    /// pasted repeatedly.
    pub fn pasted(&mut self, carried_out: bool)
        ensures
            carried_out && (old(self).staged matches Some(entry) && entry.cut)
                ==> final(self).staged is None,
            !(carried_out && (old(self).staged matches Some(entry) && entry.cut)) ==> *final(self)
                == *old(self),
    {
        let cut: bool = match &self.staged {
            Some(entry) => entry.cut,
            None => false,
        };
        if carried_out && cut {
            self.staged = None;
        }
    }
}

/// The keys of an explorer are its own: they shadow neither the keys that a
/// picker binds with `Alt`, nor those that its prompt edits words with.
pub proof fn law_explorer_keys_shadow_nothing(event: KeyEvent, preview_shown: bool)
    requires
        bound_operation(event) is Some,
    ensures
        key::shared_binding(event, preview_shown) is None,
        event != key::alt(KeyCode::Char('b')),
        event != key::alt(KeyCode::Char('d')),
        event != key::alt(KeyCode::Char('f')),
        event != key::alt(KeyCode::Backspace),
        event != key::alt(KeyCode::Delete),
{
}

/// The bare keys of an explorer are not claimed by the normal mode of a modal
/// picker, with the one exception of `a`: creating takes the place of one of
/// the three keys that lead back to the query, and the other two still do.
pub proof fn law_modal_keys_shadow_only_one(event: KeyEvent)
    requires
        modal_operation(event) is Some,
    ensures
        key::normal_action(event) is Some ==> event == key::key(KeyCode::Char('a')),
        modal_operation(key::key(KeyCode::Char('i'))) is None,
        modal_operation(key::key(KeyCode::Char('/'))) is None,
{
}

/// A paste never reaches into what is pasted.
pub proof fn law_pastes_do_not_nest(staged: Staged, root: Seq<u8>)
    requires
        paste_target(Some(staged), root) is Ok,
    ensures
        !lies_within(staged.path@, paste_target(Some(staged), root)->Ok_0),
{
}

/// Nothing may act on the `..` row of an explorer, on its root, or on anything
/// outside of it.
pub proof fn law_the_tree_outside_is_safe(root: Seq<u8>, p: Seq<u8>)
    ensures
        ends_upwards(p) ==> refusal(root, p) is Some,
        refusal(root, root) is Some,
        !path::begins_with(path::normal(path::names(p)), path::normal(path::names(root)))
            ==> refusal(root, p) is Some,
        path::absolute(p) != path::absolute(root) ==> refusal(root, p) is Some,
{
}

/// A bare name lands next to the entry that the prompt is about, and an
/// absolute destination is taken as given.
pub proof fn law_bare_names_land_next_to_the_entry(
    anchor: Seq<u8>,
    input: Seq<u8>,
    home: Option<Seq<u8>>,
)
    ensures
        path::absolute(input) ==> destination(anchor, input, home) == input,
        path::is_plain_name(input) && input != tilde() ==> destination(anchor, input, home) == (
        match path::parent_of(anchor) {
            Some(parent) => path::joined(parent, input),
            None => input,
        }),
{
    if path::is_plain_name(input) {
        path::lemma_names_of_entry(Seq::<u8>::empty(), input);
        assert(path::joined(Seq::<u8>::empty(), input) =~= input);
        assert(path::names(Seq::<u8>::empty()).len() == 0) by {
            reveal_with_fuel(path::components, 2);
            assert(path::split(Seq::<u8>::empty()) =~= seq![Seq::<u8>::empty()]);
        }
        assert(path::names(input)[0] == input);
    }
}

/// The entries of the explorer's root can be operated on.
pub proof fn law_entries_can_be_operated_on(root: Seq<u8>, name: Seq<u8>)
    requires
        path::is_plain_name(name),
    ensures
        refusal(root, path::joined(root, name)) is None,
{
    path::lemma_names_of_entry(root, name);
    let p = path::joined(root, name);
    assert(path::names(p).drop_last() =~= path::names(root));
    let above = path::normal(path::names(root));
    assert(path::normal(path::names(p)) == above.push(name));
    assert(above.push(name).take(above.len() as int) =~= above);
}

/// The selected row is always an entry of the directory.
pub proof fn law_selected_rows_are_entries(explorer: FileExplorer)
    requires
        explorer.lists_its_entries(),
        explorer.picker.wf(),
    ensures
        explorer.picker.selected() matches Some(key) ==> key < explorer.items@.len(),
{
    picker::law_selections_were_added(explorer.picker);
}

/// An entry may be acted on exactly if it does not end in `..`, and its resolved
/// path goes on from that of the root: it starts where the root does, has the
/// root's components first, and at least one more.
pub proof fn law_only_what_lies_below_may_be_acted_on(root: Seq<u8>, p: Seq<u8>)
    ensures
        ({
            let given = path::names(p);
            let above = path::normal(path::names(root));
            let parts = path::normal(given);
            refusal(root, p) is None <==> {
                &&& !(given.len() > 0 && given[given.len() - 1] == seq![46u8, 46u8])
                &&& path::absolute(p) == path::absolute(root)
                &&& parts.len() > above.len()
                &&& forall|i: int| 0 <= i < above.len() ==> #[trigger] above[i] == parts[i]
            }
        }),
{
    let above = path::normal(path::names(root));
    let parts = path::normal(path::names(p));
    if parts.len() > above.len() {
        let start = parts.take(above.len() as int);
        if forall|i: int| 0 <= i < above.len() ==> #[trigger] above[i] == parts[i] {
            assert(start =~= above);
        }
        if start == above {
            assert forall|i: int| 0 <= i < above.len() implies #[trigger] above[i] == parts[i] by {
                assert(start[i] == parts[i]);
            }
        }
    }
}

/// A refusal says why: that the entry leads upwards, or else which path lies
/// outside of which root, both resolved.
pub proof fn law_refusals_say_why(root: Seq<u8>, p: Seq<u8>)
    requires
        refusal(root, p) is Some,
    ensures
        ({
            let given = path::names(p);
            refusal(root, p).unwrap() == if given.len() > 0 && given[given.len() - 1]
                == seq![46u8, 46u8] {
                "Cannot operate on the parent directory entry"@
            } else {
                text::lossy_text(normalized(p)) + " is outside of the file explorer root "@
                    + text::lossy_text(normalized(root))
            }
        }),
{
}

/// A resolved path starts where the path does and has its components, resolved;
/// resolving it once more changes nothing.
pub proof fn law_resolved_paths_lead_to_the_same_place(p: Seq<u8>)
    ensures
        path::names(normalized(p)) == path::normal(path::names(p)),
        path::absolute(normalized(p)) == path::absolute(p),
        normalized(normalized(p)) == normalized(p),
{
    let parts = path::normal(path::names(p));
    path::law_components_are_names(p);
    assert(seq![65u8][0] == 65u8 && seq![46u8][0] == 46u8 && seq![46u8, 46u8][0] == 46u8);
    path::law_dots_are_resolved(path::names(p), seq![65u8]);
    lemma_resolved_names(path::names(p));
    assert forall|i: int| 0 <= i < parts.len() implies (#[trigger] parts[i]).len() > 0 && parts[i]
        != seq![46u8] && !parts[i].contains(47u8) by {
        let j = choose|j: int| 0 <= j < path::names(p).len() && path::names(p)[j] == parts[i];
        assert(path::names(p)[j].len() > 0);
    }
    path::law_written_paths_have_their_components(path::absolute(p), parts);
}

/// Resolved components are components that were given.
proof fn lemma_resolved_names(parts: Seq<Seq<u8>>)
    ensures
        forall|i: int|
            0 <= i < path::normal(parts).len() ==> exists|j: int|
                0 <= j < parts.len() && parts[j] == #[trigger] path::normal(parts)[i],
    decreases parts.len(),
{
    if parts.len() > 0 {
        let before = parts.drop_last();
        lemma_resolved_names(before);
        assert forall|i: int| 0 <= i < path::normal(parts).len() implies exists|j: int|
            0 <= j < parts.len() && parts[j] == #[trigger] path::normal(parts)[i] by {
            if i < path::normal(before).len() {
                let x = path::normal(before)[i];
                assert(path::normal(parts)[i] == x);
                let j = choose|j: int| 0 <= j < before.len() && before[j] == x;
                assert(parts[j] == x);
            } else {
                assert(parts[parts.len() - 1] == path::normal(parts)[i]);
            }
        }
    }
}

/// Where a typed destination leads: an absolute path leads to itself, and a
/// relative one to what it names beside the entry, unless it begins with `~`
/// and the home directory is known. The components of the directory that holds
/// the entry come first, and then those that were typed.
pub proof fn law_destinations_are_relative_to_the_entry(
    anchor: Seq<u8>,
    input: Seq<u8>,
    home: Option<Seq<u8>>,
)
    requires
        home is None || path::names(input).len() == 0 || path::names(input)[0] != seq![0x7Eu8],
    ensures
        input.len() > 0 && input[0] == 47u8 ==> destination(anchor, input, home) == input,
        input.len() == 0 || input[0] != 47u8 ==> destination(anchor, input, home) == (
        match path::parent_of(anchor) {
            Some(parent) => path::joined(parent, input),
            None => input,
        }),
{
}

/// `~` stands for the home directory: a name behind it is looked for there, and
/// nowhere else, and `~` alone is the directory itself.
pub proof fn law_tilde_leads_home(anchor: Seq<u8>, dir: Seq<u8>, name: Seq<u8>)
    requires
        dir.len() > 0,
        dir[0] == 47u8,
        name.len() > 0,
        !name.contains(47u8),
        name != seq![46u8],
        name != seq![46u8, 46u8],
    ensures
        destination(anchor, seq![0x7Eu8, 47u8] + name, Some(dir)) == path::joined(dir, name),
        path::same_path(destination(anchor, seq![0x7Eu8], Some(dir)), dir),
{
    let home = seq![0x7Eu8];
    assert(home[0] == 0x7Eu8 && home.len() == 1);
    assert(home != seq![46u8]) by {
        assert(seq![46u8][0] == 46u8);
    }
    assert(!home.contains(47u8));
    path::law_components_come_between_slashes(home, home);
    // `~` alone.
    path::law_tails_have_the_other_components(home, 1);
    assert(path::names(home).skip(1) =~= Seq::<Seq<u8>>::empty());
    let rest = path::tail_from(home, 1);
    assert(rest.len() == 0) by {
        path::lemma_nameless_relative_path_is_empty(rest);
    }
    assert(path::joined(dir, rest) =~= dir || path::joined(dir, rest) =~= dir + seq![47u8]);
    path::law_same_paths_have_the_same_components(dir, dir);
    // A name behind it.
    assert(home + seq![47u8] + name =~= seq![0x7Eu8, 47u8] + name);
    path::law_joining_puts_one_slash_between(home, name);
    assert(name[0] != 47u8);
    assert(path::joined(home, name) == seq![0x7Eu8, 47u8] + name);
    path::law_entries_lie_in_their_directory(home, name);
    assert(path::names(seq![0x7Eu8, 47u8] + name)[0] == home);
    assert((seq![0x7Eu8, 47u8] + name)[0] == 0x7Eu8);
    assert(path::stripped(path::joined(home, name), home) == Some(name));
    path::law_joining_puts_one_slash_between(dir, name);
}

/// The row of an entry shows its name, with a slash behind it if it is a
/// directory.
pub proof fn law_rows_show_names(root: Seq<u8>, name: Seq<u8>)
    requires
        name.len() > 0,
        !name.contains(47u8),
        name != seq![46u8],
        name != seq![46u8, 46u8],
    ensures
        row_text(root, path::joined(root, name), false) == text::lossy_text(name),
        row_text(root, path::joined(root, name), true) == text::lossy_text(name) + seq!['/'],
{
    path::law_entries_lie_in_their_directory(root, name);
    reveal_strlit("/");
    assert("/"@ =~= seq!['/']);
}

/// An entry outside of the root is shown with its whole path.
pub proof fn law_other_rows_show_whole_paths(root: Seq<u8>, p: Seq<u8>)
    requires
        path::absolute(p) != path::absolute(root),
        path::absolute(root) || path::names(root).len() > 0,
    ensures
        row_text(root, p, false) == text::lossy_text(p),
        row_text(root, p, true) == text::lossy_text(p) + "/"@,
{
}

/// Every entry has a row, found under its index.
pub proof fn law_every_entry_has_a_row(root: Seq<u8>, items: Seq<ExplorerItem>, i: int)
    requires
        0 <= i < items.len() <= u64::MAX,
    ensures
        rows(root, items).len() == items.len(),
        rows(root, items)[i].0 == i,
        rows(root, items)[i].1.len() == 1,
        rows(root, items)[i].1[0] == row_text(root, items[i].path@, items[i].is_dir),
{
}

/// The cursor starts where it was, or on the last entry if there are not as many
/// any more, or else on the first.
pub proof fn law_the_cursor_starts_on_an_entry(cursor: u32, len: int)
    requires
        0 <= len <= u32::MAX,
    ensures
        starting_cursor(None, len) == 0,
        cursor < len ==> starting_cursor(Some(cursor), len) == cursor,
        0 < len <= cursor ==> starting_cursor(Some(cursor), len) == len - 1,
        len == 0 ==> starting_cursor(Some(cursor), len) == 0,
{
}

/// A paste puts the staged entry into the directory under its own name, unless
/// that is the entry itself or lies in it.
pub proof fn law_pastes_keep_the_name(entry: Staged, root: Seq<u8>)
    ensures
        ({
            let named = path::file_name_of(entry.path@);
            let target = paste_target(Some(entry), root);
            match named {
                None => target == Err::<Seq<u8>, Seq<char>>(
                    "Cannot paste "@ + text::lossy_text(entry.path@),
                ),
                Some(name) => {
                    let to = path::joined(root, name);
                    let outer = path::normal(path::names(entry.path@));
                    let inner = path::normal(path::names(to));
                    let nested = path::absolute(entry.path@) == path::absolute(to) && outer.len()
                        <= inner.len() && forall|i: int|
                        0 <= i < outer.len() ==> #[trigger] outer[i] == inner[i];
                    &&& nested ==> target == Err::<Seq<u8>, Seq<char>>(
                        "Cannot paste "@ + text::lossy_text(entry.path@) + " into itself"@,
                    )
                    &&& !nested ==> target == Ok::<Seq<u8>, Seq<char>>(to)
                },
            }
        }),
        paste_target(None, root) == Err::<Seq<u8>, Seq<char>>("Nothing to paste"@),
{
    if let Some(name) = path::file_name_of(entry.path@) {
        let to = path::joined(root, name);
        let outer = path::normal(path::names(entry.path@));
        let inner = path::normal(path::names(to));
        if outer.len() <= inner.len() {
            let start = inner.take(outer.len() as int);
            if forall|i: int| 0 <= i < outer.len() ==> #[trigger] outer[i] == inner[i] {
                assert(start =~= outer);
            }
            if start == outer {
                assert forall|i: int| 0 <= i < outer.len() implies #[trigger] outer[i]
                    == inner[i] by {
                    assert(start[i] == inner[i]);
                }
            }
        }
    }
}

/// With `Alt`, these characters and no other keys are bound, each to its
/// operation.
pub proof fn law_alt_characters_have_their_operations(event: KeyEvent)
    ensures
        ({
            let bound = bound_operation(event);
            let pressed = |c: char|
                event == KeyEvent {
                    code: KeyCode::Char(c),
                    modifiers: KeyModifiers {
                        shift: false,
                        control: false,
                        alt: true,
                        meta: false,
                    },
                };
            &&& bound == Some(Operation::Prompted(Prompted::Create)) <==> pressed('n')
            &&& bound == Some(Operation::Prompted(Prompted::Move)) <==> pressed('m')
            &&& bound == Some(Operation::Prompted(Prompted::Rename)) <==> pressed('r')
            &&& bound == Some(Operation::Prompted(Prompted::Delete)) <==> pressed('x')
            &&& bound == Some(Operation::Prompted(Prompted::Copy)) <==> pressed('c')
            &&& bound == Some(Operation::YankPath) <==> pressed('y')
            &&& bound == Some(Operation::Cut) <==> pressed('t')
            &&& bound == Some(Operation::Stage) <==> pressed('w')
            &&& bound == Some(Operation::Paste) <==> pressed('p')
            &&& bound != Some(Operation::Ascend) && bound != Some(Operation::Descend)
        }),
{
}

/// In normal mode, these characters on their own and no other keys are bound,
/// each to its operation.
pub proof fn law_bare_characters_have_their_operations(event: KeyEvent)
    ensures
        ({
            let bound = modal_operation(event);
            let pressed = |c: char|
                event == KeyEvent {
                    code: KeyCode::Char(c),
                    modifiers: KeyModifiers {
                        shift: false,
                        control: false,
                        alt: false,
                        meta: false,
                    },
                };
            &&& bound == Some(Operation::Ascend) <==> pressed('h')
            &&& bound == Some(Operation::Descend) <==> pressed('l')
            &&& bound == Some(Operation::Prompted(Prompted::Create)) <==> pressed('a')
            &&& bound == Some(Operation::Prompted(Prompted::Rename)) <==> pressed('r')
            &&& bound == Some(Operation::Prompted(Prompted::Delete)) <==> pressed('D')
            &&& bound == Some(Operation::Prompted(Prompted::Move)) <==> pressed('m')
            &&& bound == Some(Operation::Cut) <==> pressed('d')
            &&& bound == Some(Operation::Stage) <==> pressed('y')
            &&& bound == Some(Operation::YankPath) <==> pressed('Y')
            &&& bound == Some(Operation::Paste) <==> pressed('p')
            &&& bound != Some(Operation::Prompted(Prompted::Copy))
        }),
{
}

/// What each operation asks, and what it fills in: the path of the entry, its
/// name, or the directory that holds it with a slash behind. A deletion says
/// whether it is of everything in a directory, and fills in nothing that would
/// answer it.
pub proof fn law_questions_are_about_the_entry(p: Seq<u8>, is_dir: bool)
    ensures
        ({
            let shown = text::lossy_text(p);
            let name = match path::file_name_of(p) {
                Some(name) => text::lossy_text(name),
                None => text::lossy_text(Seq::<u8>::empty()),
            };
            let beside = match path::parent_of(p) {
                Some(parent) => text::lossy_text(parent) + "/"@,
                None => Seq::<char>::empty(),
            };
            &&& question(Prompted::Create, p, is_dir) == "Create: "@
            &&& question(Prompted::Move, p, is_dir) == "Move "@ + shown + " -> "@
            &&& question(Prompted::Rename, p, is_dir) == "Rename "@ + name + " -> "@
            &&& question(Prompted::Copy, p, is_dir) == "Copy "@ + shown + " -> "@
            &&& question(Prompted::Delete, p, true) == "Delete "@ + shown
                + " and everything in it? (y/n): "@
            &&& question(Prompted::Delete, p, false) == "Delete "@ + shown + "? (y/n): "@
            &&& suggestion(Prompted::Create, p) == beside
            &&& suggestion(Prompted::Copy, p) == beside
            &&& suggestion(Prompted::Move, p) == shown
            &&& suggestion(Prompted::Rename, p) == name
            &&& suggestion(Prompted::Delete, p).len() == 0
        }),
{
}

/// Moving, renaming and deleting cannot be taken back; creating and copying
/// leave the entry as it is.
pub proof fn law_some_operations_cannot_be_taken_back(kind: Prompted)
    ensures
        destructive(kind) <==> !(kind == Prompted::Create || kind == Prompted::Copy),
{
}

/// The cursor goes back over the extension and its dot, and not at all where
/// there is no extension.
pub proof fn law_the_cursor_stands_before_the_dot(p: Seq<u8>)
    ensures
        match path::extension_of(p) {
            Some(ext) => back_over_extension(p) == Some(1 + text::lossy_text(ext).len() as int),
            None => back_over_extension(p) is None,
        },
{
}

/// A path that begins with `~` leads to what it names below the home directory:
/// the components of that come first, and then the others that were typed.
pub proof fn law_paths_behind_a_tilde_lead_home(anchor: Seq<u8>, dir: Seq<u8>, input: Seq<u8>)
    requires
        dir.len() > 0,
        dir[0] == 47u8,
        input.len() > 0,
        input[0] != 47u8,
        path::names(input).len() > 0,
        path::names(input)[0] == seq![0x7Eu8],
    ensures
        path::names(destination(anchor, input, Some(dir))) == path::names(dir) + path::names(
            input,
        ).skip(1),
        path::absolute(destination(anchor, input, Some(dir))),
{
    let rest = path::tail_from(input, 1);
    path::law_tails_have_the_other_components(input, 1);
    path::law_components_are_names(input);
    if path::names(rest).len() > 0 {
        assert(path::names(rest)[0] == path::names(input)[1]);
    }
    path::law_joining_adds_components(dir, rest);
}

/// A relative path that was typed leads to what it names beside the entry: the
/// components of the directory that holds the entry come first, and then those
/// that were typed.
pub proof fn law_typed_paths_start_beside_the_entry(
    anchor: Seq<u8>,
    input: Seq<u8>,
    home: Option<Seq<u8>>,
)
    requires
        input.len() == 0 || input[0] != 47u8,
        path::names(anchor).len() > 0,
        path::names(input).len() == 0 || (path::names(input)[0] != seq![0x7Eu8] && path::names(
            input,
        )[0] != seq![46u8]),
    ensures
        path::names(destination(anchor, input, home)) == path::names(anchor).drop_last()
            + path::names(input),
{
    path::law_parents_drop_the_last_component(anchor);
    let parent = path::parent_of(anchor).unwrap();
    path::law_joining_adds_components(parent, input);
}

/// Going back by so many characters leaves what comes before the extension and
/// its dot.
pub proof fn law_going_back_leaves_the_stem(name: Seq<char>, ext: Seq<char>, back: int)
    requires
        leads_before(name, ext, back),
    ensures
        back == ext.len() + 1,
        name == name.take(name.len() - back) + seq!['.'] + ext,
{
    let tail = name.skip(name.len() - back);
    assert(tail.len() == back);
    assert(name =~= name.take(name.len() - back) + tail);
    assert(name =~= name.take(name.len() - back) + seq!['.'] + ext);
}

/// The home directory is seen by its bytes.
pub proof fn law_the_home_directory_is_seen_as_it_is(dir: FilePath)
    ensures
        bytes_of(Some(dir)) == Some(dir.bytes@),
        bytes_of(None) is None,
{
}

/// An entry below the root is shown by what is left of its path without the
/// root, and any other by its whole path.
pub proof fn law_rows_show_what_lies_below_the_root(root: Seq<u8>, p: Seq<u8>)
    ensures
        path::stripped(p, root) matches Some(rest) ==> row_text(root, p, false) == text::lossy_text(
            rest,
        ),
        path::stripped(p, root) is None ==> row_text(root, p, false) == text::lossy_text(p),
        row_text(root, p, true) == row_text(root, p, false) + "/"@,
{
}

} // verus!
