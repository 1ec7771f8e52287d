//! File operations step by step: what to do to the file system next, given how
//! the step before went, and what to tell the user in the end.
use vstd::prelude::*;
use vstd::string::*;
use vstd::utf8::*;
use crate::explorer;
use crate::explorer::{Clipboard, FileOperation, Prompted};
use crate::path;
use crate::path::FilePath;
use crate::text;

verus! {

/// What a task is to do.
#[derive(Debug, Clone, Copy, PartialEq, Eq, Structural)]
pub enum TaskKind {
    CreateDirectory,
    CreateFile,
    /// `directory` is how the entry is called when it cannot be moved.
    Move { directory: bool },
    /// Copy a file.
    CopyFile,
    /// Copy an entry with everything in it.
    CopyTree,
    Delete,
}

/// How far a task has come: what it waits to be told.
#[derive(Debug, Clone, Copy, PartialEq, Eq, Structural)]
pub enum Stage {
    /// Whether the source is a directory.
    SourceKind,
    /// Whether there is something at the target.
    Target,
    /// Whether that may be overwritten.
    Answer,
    /// How making the directories above the target went.
    Parents,
    /// How the operation itself went.
    Act,
    /// What there is to delete.
    Inspect,
    /// How deleting a directory went.
    RemoveTree,
    /// How deleting a file went.
    RemoveFile,
    /// Nothing: the task is over.
    Over,
}

/// A file operation under way.
pub struct Task {
    pub kind: TaskKind,
    pub from: FilePath,
    pub to: FilePath,
    pub stage: Stage,
}

/// The model of a [`Task`].
pub struct TaskView {
    pub kind: TaskKind,
    pub from: Seq<u8>,
    pub to: Seq<u8>,
    pub stage: Stage,
}

impl View for Task {
    type V = TaskView;

    open spec fn view(&self) -> TaskView {
        TaskView { kind: self.kind, from: self.from@, to: self.to@, stage: self.stage }
    }
}

/// What a task is told.
pub enum Event {
    /// The answer to whether the source is a directory, or whether there is
    /// something at the target.
    Is(bool),
    /// What the user typed.
    Typed(String),
    /// How a step went, with the reason if it failed.
    Went(Result<(), String>),
    /// Whether there is a directory to delete, or why that is not known.
    Found(Result<bool, String>),
}

/// The model of an [`Event`].
pub enum EventView {
    Is(bool),
    Typed(Seq<char>),
    Went(Option<Seq<char>>),
    Found(Result<bool, Seq<char>>),
}

impl View for Event {
    type V = EventView;

    open spec fn view(&self) -> EventView {
        match self {
            Event::Is(yes) => EventView::Is(*yes),
            Event::Typed(line) => EventView::Typed(line@),
            Event::Went(Ok(_)) => EventView::Went(None),
            Event::Went(Err(reason)) => EventView::Went(Some(reason@)),
            Event::Found(Ok(is_dir)) => EventView::Found(Ok(*is_dir)),
            Event::Found(Err(reason)) => EventView::Found(Err(reason@)),
        }
    }
}

/// What to do next.
pub enum Effect {
    AskIsDir(FilePath),
    AskExists(FilePath),
    /// Ask the user.
    Confirm(String),
    /// Make a directory and all that are missing above it.
    MakeDirs(FilePath),
    MakeFile(FilePath),
    Move(FilePath, FilePath),
    CopyFile(FilePath, FilePath),
    CopyTree(FilePath, FilePath),
    /// Look at an entry itself, not at what it may link to.
    Inspect(FilePath),
    /// Delete a directory and everything in it.
    RemoveTree(FilePath),
    RemoveFile(FilePath),
    /// The task is over. An operation that was cancelled has nothing to say;
    /// one that has succeeded changed what the explorer shows.
    Report(Option<Result<String, String>>),
}

/// The model of an [`Effect`].
pub enum EffectView {
    AskIsDir(Seq<u8>),
    AskExists(Seq<u8>),
    Confirm(Seq<char>),
    MakeDirs(Seq<u8>),
    MakeFile(Seq<u8>),
    Move(Seq<u8>, Seq<u8>),
    CopyFile(Seq<u8>, Seq<u8>),
    CopyTree(Seq<u8>, Seq<u8>),
    Inspect(Seq<u8>),
    RemoveTree(Seq<u8>),
    RemoveFile(Seq<u8>),
    Report(Option<Result<Seq<char>, Seq<char>>>),
}

impl View for Effect {
    type V = EffectView;

    open spec fn view(&self) -> EffectView {
        match self {
            Effect::AskIsDir(p) => EffectView::AskIsDir(p@),
            Effect::AskExists(p) => EffectView::AskExists(p@),
            Effect::Confirm(question) => EffectView::Confirm(question@),
            Effect::MakeDirs(p) => EffectView::MakeDirs(p@),
            Effect::MakeFile(p) => EffectView::MakeFile(p@),
            Effect::Move(from, to) => EffectView::Move(from@, to@),
            Effect::CopyFile(from, to) => EffectView::CopyFile(from@, to@),
            Effect::CopyTree(from, to) => EffectView::CopyTree(from@, to@),
            Effect::Inspect(p) => EffectView::Inspect(p@),
            Effect::RemoveTree(p) => EffectView::RemoveTree(p@),
            Effect::RemoveFile(p) => EffectView::RemoveFile(p@),
            Effect::Report(None) => EffectView::Report(None),
            Effect::Report(Some(Ok(message))) => EffectView::Report(Some(Ok(message@))),
            Effect::Report(Some(Err(message))) => EffectView::Report(Some(Err(message@))),
        }
    }
}

/// Whether what a task is told is what it waits for.
pub open spec fn awaits(stage: Stage, event: EventView) -> bool {
    match stage {
        Stage::SourceKind | Stage::Target => event is Is,
        Stage::Answer => event is Typed,
        Stage::Parents | Stage::Act | Stage::RemoveTree | Stage::RemoveFile => event is Went,
        Stage::Inspect => event is Found,
        Stage::Over => false,
    }
}

/// Two paths in a sentence.
pub open spec fn sentence(
    start: Seq<char>,
    from: Seq<u8>,
    between: Seq<char>,
    to: Seq<u8>,
) -> Seq<char> {
    start + text::lossy_text(from) + between + text::lossy_text(to)
}

/// What is said of a task that has succeeded.
pub open spec fn success(task: TaskView) -> Seq<char> {
    match task.kind {
        TaskKind::CreateDirectory => "Created directory: "@ + text::lossy_text(task.to),
        TaskKind::CreateFile => "Created file: "@ + text::lossy_text(task.to),
        TaskKind::Move { .. } => sentence("Moved "@, task.from, " -> "@, task.to),
        TaskKind::CopyFile => sentence("Copied contents of file "@, task.from, " to "@, task.to),
        TaskKind::CopyTree => sentence("Copied "@, task.from, " to "@, task.to),
        TaskKind::Delete => if task.stage == Stage::RemoveTree {
            "Deleted directory: "@ + text::lossy_text(task.from)
        } else {
            "Deleted file: "@ + text::lossy_text(task.from)
        },
    }
}

/// What is said of a task that has failed.
pub open spec fn failure(task: TaskView, reason: Seq<char>) -> Seq<char> {
    (match task.kind {
        TaskKind::CreateDirectory => "Unable to create directory "@ + text::lossy_text(task.to),
        TaskKind::CreateFile => "Unable to create file "@ + text::lossy_text(task.to),
        TaskKind::Move { directory } => if directory {
            sentence("Unable to move directory "@, task.from, " -> "@, task.to)
        } else {
            sentence("Unable to move file "@, task.from, " -> "@, task.to)
        },
        TaskKind::CopyFile => sentence("Unable to copy from file "@, task.from, " to "@, task.to),
        TaskKind::CopyTree => sentence("Unable to copy "@, task.from, " to "@, task.to),
        TaskKind::Delete => if task.stage == Stage::RemoveTree {
            "Unable to delete directory "@ + text::lossy_text(task.from)
        } else {
            "Unable to delete file "@ + text::lossy_text(task.from)
        },
    }) + ": "@ + reason
}

/// What is asked before something is overwritten.
pub open spec fn overwrite_question(to: Seq<u8>) -> Seq<char> {
    "Path "@ + text::lossy_text(to) + " already exists. Overwrite? (y/n): "@
}

/// What is said of a directory that was to be copied as a file.
pub open spec fn no_directories(from: Seq<u8>) -> Seq<char> {
    "Copying directories is not supported: "@ + text::lossy_text(from) + " is a directory"@
}

/// How a task sets to work. Missing directories above a new file are made
/// first.
pub open spec fn set_to_work(task: TaskView) -> (Stage, EffectView) {
    match task.kind {
        TaskKind::CreateDirectory => (Stage::Act, EffectView::MakeDirs(task.to)),
        TaskKind::CreateFile => match path::parent_of(task.to) {
            Some(parent) => (Stage::Parents, EffectView::MakeDirs(parent)),
            None => (
                Stage::Over,
                EffectView::Report(
                    Some(
                        Err(
                            "Failed to get parent directory of "@ + text::lossy_text(task.to),
                        ),
                    ),
                ),
            ),
        },
        TaskKind::Move { .. } => (Stage::Act, EffectView::Move(task.from, task.to)),
        TaskKind::CopyFile => (Stage::Act, EffectView::CopyFile(task.from, task.to)),
        TaskKind::CopyTree => (Stage::Act, EffectView::CopyTree(task.from, task.to)),
        TaskKind::Delete => (Stage::Inspect, EffectView::Inspect(task.from)),
    }
}

/// How a task goes on once it is told what it waits for.
pub open spec fn next(task: TaskView, event: EventView) -> (Stage, EffectView) {
    match (task.stage, event) {
        (Stage::SourceKind, EventView::Is(is_dir)) => if is_dir {
            (Stage::Over, EffectView::Report(Some(Err(no_directories(task.from)))))
        } else {
            (Stage::Target, EffectView::AskExists(task.to))
        },
        (Stage::Target, EventView::Is(exists)) => if exists {
            (Stage::Answer, EffectView::Confirm(overwrite_question(task.to)))
        } else {
            set_to_work(task)
        },
        (Stage::Answer, EventView::Typed(line)) => if line == "y"@ {
            set_to_work(task)
        } else {
            (Stage::Over, EffectView::Report(None))
        },
        (Stage::Parents, EventView::Went(None)) => (Stage::Act, EffectView::MakeFile(task.to)),
        (Stage::Parents, EventView::Went(Some(reason))) => (
            Stage::Over,
            EffectView::Report(Some(Err("Could not create intermediate directories: "@ + reason))),
        ),
        (Stage::Inspect, EventView::Found(Ok(is_dir))) => if is_dir {
            (Stage::RemoveTree, EffectView::RemoveTree(task.from))
        } else {
            (Stage::RemoveFile, EffectView::RemoveFile(task.from))
        },
        (Stage::Inspect, EventView::Found(Err(reason))) => (
            Stage::Over,
            EffectView::Report(
                Some(Err("Unable to read "@ + text::lossy_text(task.from) + ": "@ + reason)),
            ),
        ),
        (_, EventView::Went(None)) => (Stage::Over, EffectView::Report(Some(Ok(success(task))))),
        (_, EventView::Went(Some(reason))) => (
            Stage::Over,
            EffectView::Report(Some(Err(failure(task, reason)))),
        ),
        _ => (Stage::Over, EffectView::Report(None)),
    }
}

/// How a task begins, once the user has typed what it asked for.
pub open spec fn first(
    kind: Prompted,
    p: Seq<u8>,
    root: Seq<u8>,
    input: Seq<char>,
    home: Option<Seq<u8>>,
) -> (TaskView, EffectView) {
    let to = explorer::destination(p, encode_utf8(input), home);
    let as_dir = input.len() > 0 && input.last() == '/';
    let task = TaskView {
        kind: match kind {
            Prompted::Create => if as_dir {
                TaskKind::CreateDirectory
            } else {
                TaskKind::CreateFile
            },
            Prompted::Move | Prompted::Rename => TaskKind::Move { directory: as_dir },
            Prompted::Copy => TaskKind::CopyFile,
            Prompted::Delete => TaskKind::Delete,
        },
        from: p,
        to: if kind == Prompted::Delete {
            p
        } else {
            to
        },
        stage: Stage::Over,
    };
    match kind {
        Prompted::Create | Prompted::Move | Prompted::Rename => (
            TaskView { stage: Stage::Target, ..task },
            EffectView::AskExists(to),
        ),
        Prompted::Copy => if as_dir {
            (task, EffectView::Report(Some(Err(no_directories(p)))))
        } else {
            (TaskView { stage: Stage::SourceKind, ..task }, EffectView::AskIsDir(p))
        },
        Prompted::Delete => if input != "y"@ {
            (task, EffectView::Report(None))
        } else {
            match explorer::refusal(root, p) {
                Some(message) => (task, EffectView::Report(Some(Err(message)))),
                None => (TaskView { stage: Stage::Inspect, ..task }, EffectView::Inspect(p)),
            }
        },
    }
}

/// Text with two paths in it.
fn say(start: &str, from: &FilePath, between: &str, to: &FilePath) -> (said: String)
    ensures
        said@ == sentence(start@, from@, between@, to@),
{
    let mut said: String = String::new();
    said.append(start);
    said.append(from.display().as_str());
    said.append(between);
    said.append(to.display().as_str());
    assert(said@ =~= sentence(start@, from@, between@, to@));
    said
}

/// Text with a path at its end.
fn say_one(start: &str, p: &FilePath) -> (said: String)
    ensures
        said@ == start@ + text::lossy_text(p@),
{
    let mut said: String = String::new();
    said.append(start);
    said.append(p.display().as_str());
    assert(said@ =~= start@ + text::lossy_text(p@));
    said
}

impl Task {
    fn success_message(&self) -> (message: String)
        ensures
            message@ == success(self@),
    {
        match self.kind {
            TaskKind::CreateDirectory => say_one("Created directory: ", &self.to),
            TaskKind::CreateFile => say_one("Created file: ", &self.to),
            TaskKind::Move { .. } => say("Moved ", &self.from, " -> ", &self.to),
            TaskKind::CopyFile => say("Copied contents of file ", &self.from, " to ", &self.to),
            TaskKind::CopyTree => say("Copied ", &self.from, " to ", &self.to),
            TaskKind::Delete => if self.stage == Stage::RemoveTree {
                say_one("Deleted directory: ", &self.from)
            } else {
                say_one("Deleted file: ", &self.from)
            },
        }
    }

    fn failure_message(&self, reason: &str) -> (message: String)
        ensures
            message@ == failure(self@, reason@),
    {
        let mut message: String = match self.kind {
            TaskKind::CreateDirectory => say_one("Unable to create directory ", &self.to),
            TaskKind::CreateFile => say_one("Unable to create file ", &self.to),
            TaskKind::Move { directory } => if directory {
                say("Unable to move directory ", &self.from, " -> ", &self.to)
            } else {
                say("Unable to move file ", &self.from, " -> ", &self.to)
            },
            TaskKind::CopyFile => say("Unable to copy from file ", &self.from, " to ", &self.to),
            TaskKind::CopyTree => say("Unable to copy ", &self.from, " to ", &self.to),
            TaskKind::Delete => if self.stage == Stage::RemoveTree {
                say_one("Unable to delete directory ", &self.from)
            } else {
                say_one("Unable to delete file ", &self.from)
            },
        };
        message.append(": ");
        message.append(reason);
        assert(message@ =~= failure(self@, reason@));
        message
    }

    /// Sets to work.
    fn work(&mut self) -> (effect: Effect)
        ensures
            final(self)@ == (TaskView { stage: set_to_work(old(self)@).0, ..old(self)@ }),
            effect@ == set_to_work(old(self)@).1,
    {
        match self.kind {
            TaskKind::CreateDirectory => {
                self.stage = Stage::Act;
                Effect::MakeDirs(self.to.duplicate())
            },
            TaskKind::CreateFile => match self.to.parent() {
                Some(parent) => {
                    self.stage = Stage::Parents;
                    Effect::MakeDirs(parent)
                },
                None => {
                    self.stage = Stage::Over;
                    Effect::Report(
                        Some(Err(say_one("Failed to get parent directory of ", &self.to))),
                    )
                },
            },
            TaskKind::Move { .. } => {
                self.stage = Stage::Act;
                Effect::Move(self.from.duplicate(), self.to.duplicate())
            },
            TaskKind::CopyFile => {
                self.stage = Stage::Act;
                Effect::CopyFile(self.from.duplicate(), self.to.duplicate())
            },
            TaskKind::CopyTree => {
                self.stage = Stage::Act;
                Effect::CopyTree(self.from.duplicate(), self.to.duplicate())
            },
            TaskKind::Delete => {
                self.stage = Stage::Inspect;
                Effect::Inspect(self.from.duplicate())
            },
        }
    }

    /// Begins the operation that was prompted for: `input` is what the user
    /// typed. What is typed for a deletion is a confirmation, and anything but
    /// an explicit `y` cancels it. That the entry may be deleted is checked
    /// again here: deleting the wrong tree is not recoverable.
    pub fn begin(kind: Prompted, op: &FileOperation, input: &str, home: &Option<FilePath>) -> (begun: (
        Task,
        Effect,
    ))
        ensures
            ({
                let (task, effect) = first(
                    kind,
                    op.path@,
                    op.root@,
                    input@,
                    explorer::bytes_of(*home),
                );
                begun.0@ == task && begun.1@ == effect
            }),
    {
        let chars: Vec<char> = text::chars_of(input);
        let as_dir: bool = chars.len() > 0 && chars[chars.len() - 1] == '/';
        let from: FilePath = op.path.duplicate();
        match kind {
            Prompted::Delete => {
                let to: FilePath = op.path.duplicate();
                let mut task: Task = Task { kind: TaskKind::Delete, from, to, stage: Stage::Over };
                if !text::same_text(input, "y") {
                    return (task, Effect::Report(None));
                }
                if let Err(message) = explorer::check_within_root(&op.root, &op.path) {
                    return (task, Effect::Report(Some(Err(message))));
                }
                task.stage = Stage::Inspect;
                let effect: Effect = Effect::Inspect(task.from.duplicate());
                (task, effect)
            },
            Prompted::Copy => {
                let to: FilePath = explorer::resolve_destination(&op.path, input, home);
                let mut task: Task = Task { kind: TaskKind::CopyFile, from, to, stage: Stage::Over };
                if as_dir {
                    let effect: Effect = Effect::Report(Some(Err(no_directories_message(&task.from))));
                    return (task, effect);
                }
                task.stage = Stage::SourceKind;
                let effect: Effect = Effect::AskIsDir(task.from.duplicate());
                (task, effect)
            },
            Prompted::Create | Prompted::Move | Prompted::Rename => {
                let to: FilePath = explorer::resolve_destination(&op.path, input, home);
                let work: TaskKind = match kind {
                    Prompted::Create => if as_dir {
                        TaskKind::CreateDirectory
                    } else {
                        TaskKind::CreateFile
                    },
                    _ => TaskKind::Move { directory: as_dir },
                };
                let effect: Effect = Effect::AskExists(to.duplicate());
                (Task { kind: work, from, to, stage: Stage::Target }, effect)
            },
        }
    }

    /// Begins to paste what is staged into a directory, or says why it cannot
    /// be pasted there.
    pub fn paste(clipboard: &Clipboard, root: &FilePath) -> (begun: Result<(Task, Effect), String>)
        ensures
            match begun {
                Ok((task, effect)) => {
                    &&& clipboard.staged matches Some(entry) && task@ == (TaskView {
                        kind: if entry.cut {
                            TaskKind::Move { directory: entry.is_dir }
                        } else {
                            TaskKind::CopyTree
                        },
                        from: entry.path@,
                        to: task.to@,
                        stage: Stage::Target,
                    })
                    &&& explorer::paste_target(clipboard.staged, root@) == Ok::<Seq<u8>, Seq<char>>(
                        task.to@,
                    )
                    &&& effect@ == EffectView::AskExists(task.to@)
                },
                Err(message) => explorer::paste_target(clipboard.staged, root@) == Err::<
                    Seq<u8>,
                    Seq<char>,
                >(message@),
            },
    {
        let to: FilePath = match clipboard.target(root) {
            Ok(to) => to,
            Err(message) => return Err(message),
        };
        match &clipboard.staged {
            Some(entry) => {
                let kind: TaskKind = if entry.cut {
                    TaskKind::Move { directory: entry.is_dir }
                } else {
                    TaskKind::CopyTree
                };
                let effect: Effect = Effect::AskExists(to.duplicate());
                Ok((Task { kind, from: entry.path.duplicate(), to, stage: Stage::Target }, effect))
            },
            None => Err("Nothing to paste".to_string()),
        }
    }

    /// Goes on with the operation, once it is told what it waits for. The
    /// confirmation before overwriting defaults to "no": anything other than a
    /// literal `y` leaves the existing path untouched.
    pub fn advance(&mut self, event: Event) -> (effect: Effect)
        requires
            awaits(old(self).stage, event@),
        ensures
            final(self)@ == (TaskView { stage: next(old(self)@, event@).0, ..old(self)@ }),
            effect@ == next(old(self)@, event@).1,
    {
        match (self.stage, event) {
            (Stage::SourceKind, Event::Is(is_dir)) => {
                if is_dir {
                    self.stage = Stage::Over;
                    Effect::Report(Some(Err(no_directories_message(&self.from))))
                } else {
                    self.stage = Stage::Target;
                    Effect::AskExists(self.to.duplicate())
                }
            },
            (Stage::Target, Event::Is(exists)) => {
                if !exists {
                    // Nothing to confirm: the path can be written to freely.
                    return self.work();
                }
                self.stage = Stage::Answer;
                let mut question: String = say_one("Path ", &self.to);
                question.append(" already exists. Overwrite? (y/n): ");
                assert(question@ =~= overwrite_question(self.to@));
                Effect::Confirm(question)
            },
            (Stage::Answer, Event::Typed(line)) => {
                if text::same_text(line.as_str(), "y") {
                    return self.work();
                }
                self.stage = Stage::Over;
                Effect::Report(None)
            },
            (Stage::Parents, Event::Went(went)) => match went {
                Ok(_) => {
                    self.stage = Stage::Act;
                    Effect::MakeFile(self.to.duplicate())
                },
                Err(reason) => {
                    self.stage = Stage::Over;
                    let mut message: String = String::new();
                    message.append("Could not create intermediate directories: ");
                    message.append(reason.as_str());
                    assert(message@ =~= "Could not create intermediate directories: "@ + reason@);
                    Effect::Report(Some(Err(message)))
                },
            },
            (Stage::Inspect, Event::Found(found)) => match found {
                Ok(is_dir) => if is_dir {
                    self.stage = Stage::RemoveTree;
                    Effect::RemoveTree(self.from.duplicate())
                } else {
                    self.stage = Stage::RemoveFile;
                    Effect::RemoveFile(self.from.duplicate())
                },
                Err(reason) => {
                    self.stage = Stage::Over;
                    let mut message: String = say_one("Unable to read ", &self.from);
                    message.append(": ");
                    message.append(reason.as_str());
                    assert(message@ =~= "Unable to read "@ + text::lossy_text(self.from@) + ": "@
                        + reason@);
                    Effect::Report(Some(Err(message)))
                },
            },
            (_, Event::Went(went)) => {
                let outcome: Result<String, String> = match went {
                    Ok(_) => Ok(self.success_message()),
                    Err(reason) => Err(self.failure_message(reason.as_str())),
                };
                self.stage = Stage::Over;
                Effect::Report(Some(outcome))
            },
            _ => {
                self.stage = Stage::Over;
                Effect::Report(None)
            },
        }
    }
}

/// What is said of a directory that was to be copied as a file.
fn no_directories_message(from: &FilePath) -> (message: String)
    ensures
        message@ == no_directories(from@),
{
    let mut message: String = say_one("Copying directories is not supported: ", from);
    message.append(" is a directory");
    assert(message@ =~= no_directories(from@));
    message
}

/// Whether an effect writes over what is at the target.
pub open spec fn writes(effect: EffectView) -> bool {
    effect is MakeDirs || effect is MakeFile || effect is Move || effect is CopyFile || effect
        is CopyTree
}

/// Whether an effect deletes something.
pub open spec fn deletes(effect: EffectView) -> bool {
    effect is RemoveTree || effect is RemoveFile
}

/// Nothing is written before it is known that there is nothing at the target,
/// or that it may be overwritten: the first step of the work comes right after
/// one of the two.
pub proof fn law_overwriting_needs_consent(task: TaskView, event: EventView)
    requires
        awaits(task.stage, event),
        task.stage == Stage::SourceKind || task.stage == Stage::Target || task.stage
            == Stage::Answer,
        writes(next(task, event).1),
    ensures
        (task.stage == Stage::Target && event == EventView::Is(false)) || (task.stage
            == Stage::Answer && event == EventView::Typed("y"@)),
{
}

/// A task over a path that exists does nothing unless the user types `y`: it
/// asks, and any other answer ends it without a word.
pub proof fn law_anything_but_y_changes_nothing(task: TaskView, line: Seq<char>)
    requires
        task.stage == Stage::Target,
        line != "y"@,
    ensures
        ({
            let (asked, question) = next(task, EventView::Is(true));
            let (over, report) = next(TaskView { stage: asked, ..task }, EventView::Typed(line));
            &&& question == EffectView::Confirm(overwrite_question(task.to))
            &&& over == Stage::Over
            &&& report == EffectView::Report(None)
        }),
{
}

/// A deletion starts only on an explicit `y`, and only on an entry inside the
/// explorer's root.
pub proof fn law_deleting_needs_consent(
    p: Seq<u8>,
    root: Seq<u8>,
    input: Seq<char>,
    home: Option<Seq<u8>>,
)
    ensures
        first(Prompted::Delete, p, root, input, home).0.stage != Stage::Over <==> input == "y"@
            && explorer::refusal(root, p) is None,
        first(Prompted::Delete, p, root, input, home).0.from == p,
{
}

/// Only a deletion deletes, and only the entry that it is about.
pub proof fn law_only_deletions_delete(task: TaskView, event: EventView)
    requires
        awaits(task.stage, event),
        deletes(next(task, event).1),
    ensures
        task.stage == Stage::Inspect,
        next(task, event).1 == EffectView::RemoveTree(task.from) || next(task, event).1
            == EffectView::RemoveFile(task.from),
{
}

/// Of the operations that are prompted for, only a deletion ever gets to the
/// point of deleting.
pub proof fn law_other_operations_never_inspect(
    kind: Prompted,
    p: Seq<u8>,
    root: Seq<u8>,
    input: Seq<char>,
    home: Option<Seq<u8>>,
    task: TaskView,
    event: EventView,
)
    requires
        kind != Prompted::Delete,
        task == (TaskView { stage: task.stage, ..first(kind, p, root, input, home).0 }),
        task.stage != Stage::Inspect,
        awaits(task.stage, event),
    ensures
        next(task, event).0 != Stage::Inspect,
{
}

/// A task always comes to an end: each step leads to a later stage.
pub open spec fn steps_left(stage: Stage) -> int {
    match stage {
        Stage::SourceKind => 6,
        Stage::Target => 5,
        Stage::Answer => 4,
        Stage::Inspect => 3,
        Stage::Parents => 2,
        Stage::Act | Stage::RemoveTree | Stage::RemoveFile => 1,
        Stage::Over => 0,
    }
}

/// Every step brings a task closer to its end, and the last one is a report.
pub proof fn law_tasks_come_to_an_end(task: TaskView, event: EventView)
    requires
        awaits(task.stage, event),
    ensures
        0 <= steps_left(next(task, event).0) < steps_left(task.stage),
        next(task, event).0 == Stage::Over <==> next(task, event).1 is Report,
{
}

/// The stages that a task of a kind passes through.
pub open spec fn suits(kind: TaskKind, stage: Stage) -> bool {
    match stage {
        Stage::SourceKind => kind is CopyFile,
        Stage::Target | Stage::Answer | Stage::Act => !(kind is Delete),
        Stage::Parents => kind is CreateFile,
        Stage::Inspect | Stage::RemoveTree | Stage::RemoveFile => kind is Delete,
        Stage::Over => true,
    }
}

/// A task passes only through the stages of its kind: it begins in one of them,
/// and goes on to another.
pub proof fn law_tasks_keep_to_their_stages(
    kind: Prompted,
    p: Seq<u8>,
    root: Seq<u8>,
    input: Seq<char>,
    home: Option<Seq<u8>>,
    task: TaskView,
    event: EventView,
)
    ensures
        ({
            let begun = first(kind, p, root, input, home).0;
            suits(begun.kind, begun.stage)
        }),
        suits(task.kind, task.stage) && awaits(task.stage, event) ==> suits(
            task.kind,
            next(task, event).0,
        ),
{
}

/// A move moves: whatever a task that is to move an entry is told, the one
/// thing that it ever has done to the file system is to move the entry to its
/// target, directory or not.
pub proof fn law_moves_move(task: TaskView, event: EventView)
    requires
        task.kind is Move,
        suits(task.kind, task.stage),
        awaits(task.stage, event),
    ensures
        match next(task, event).1 {
            EffectView::Move(from, to) => from == task.from && to == task.to,
            EffectView::Confirm(_) => task.stage == Stage::Target,
            EffectView::Report(_) => true,
            _ => false,
        },
        task.stage == Stage::Target && event == EventView::Is(false) ==> next(task, event).1
            is Move,
        task.stage == Stage::Answer && event == EventView::Typed("y"@) ==> next(task, event).1
            is Move,
{
}

/// A task has done what its kind says, and nothing else: what is made, moved or
/// copied is its target, what is copied or moved or deleted its source, and the
/// only directories made are a new one or those above a new file.
pub proof fn law_tasks_do_what_they_are_for(task: TaskView, event: EventView)
    requires
        suits(task.kind, task.stage),
        awaits(task.stage, event),
    ensures
        match next(task, event).1 {
            EffectView::MakeDirs(dir) => (task.kind is CreateDirectory && dir == task.to) || (
            task.kind is CreateFile && path::parent_of(task.to) == Some(dir)),
            EffectView::MakeFile(file) => task.kind is CreateFile && file == task.to && task.stage
                == Stage::Parents && event == EventView::Went(None),
            EffectView::Move(from, to) => task.kind is Move && from == task.from && to == task.to,
            EffectView::CopyFile(from, to) => task.kind is CopyFile && from == task.from && to
                == task.to,
            EffectView::CopyTree(from, to) => task.kind is CopyTree && from == task.from && to
                == task.to,
            EffectView::RemoveTree(entry) => task.kind is Delete && entry == task.from && event
                == EventView::Found(Ok(true)),
            EffectView::RemoveFile(entry) => task.kind is Delete && entry == task.from && event
                == EventView::Found(Ok(false)),
            EffectView::AskExists(target) => task.stage == Stage::SourceKind && target == task.to
                && event == EventView::Is(false),
            EffectView::Confirm(question) => task.stage == Stage::Target && event == EventView::Is(
                true,
            ) && question == "Path "@ + text::lossy_text(task.to)
                + " already exists. Overwrite? (y/n): "@,
            EffectView::AskIsDir(_) | EffectView::Inspect(_) => false,
            EffectView::Report(_) => true,
        },
{
}

/// Once nothing stands in its way a task gets to work: there is nothing at the
/// target, or the user has typed `y`. Only a file that is in no directory
/// cannot be made.
pub proof fn law_consent_sets_to_work(task: TaskView, event: EventView)
    requires
        !(task.kind is Delete),
        (task.stage == Stage::Target && event == EventView::Is(false)) || (task.stage
            == Stage::Answer && event == EventView::Typed("y"@)),
    ensures
        match next(task, event).1 {
            EffectView::MakeDirs(_) | EffectView::Move(_, _) | EffectView::CopyFile(_, _)
            | EffectView::CopyTree(_, _) => true,
            EffectView::Report(report) => task.kind is CreateFile && path::parent_of(task.to)
                is None && report == Some::<Result<Seq<char>, Seq<char>>>(
                Err("Failed to get parent directory of "@ + text::lossy_text(task.to)),
            ),
            _ => false,
        },
        task.kind is CreateFile && path::parent_of(task.to) is Some ==> next(task, event).1
            is MakeDirs && next(task, event).0 == Stage::Parents,
        !(task.kind is CreateFile) ==> next(task, event).0 == Stage::Act,
{
}

/// A task waits for the answer to what it asked for, and for nothing else; one
/// that has reported waits for nothing.
pub proof fn law_tasks_wait_for_what_they_asked(
    task: TaskView,
    event: EventView,
    answer: EventView,
)
    requires
        awaits(task.stage, event),
    ensures
        ({
            let (stage, effect) = next(task, event);
            awaits(stage, answer) <==> match effect {
                EffectView::AskIsDir(_) | EffectView::AskExists(_) => answer is Is,
                EffectView::Confirm(_) => answer is Typed,
                EffectView::Inspect(_) => answer is Found,
                EffectView::Report(_) => false,
                _ => answer is Went,
            }
        }),
{
}

/// A task whose last step went well reports a success, and one whose step
/// failed reports a failure that ends with the reason; what is said names the
/// operation and what it was about.
pub proof fn law_outcomes_are_reported(task: TaskView, reason: Seq<char>)
    requires
        task.stage == Stage::Act || task.stage == Stage::RemoveTree || task.stage
            == Stage::RemoveFile,
        suits(task.kind, task.stage),
    ensures
        next(task, EventView::Went(None)).0 == Stage::Over,
        next(task, EventView::Went(Some(reason))).0 == Stage::Over,
        ({
            let from = text::lossy_text(task.from);
            let to = text::lossy_text(task.to);
            let done = match task.kind {
                TaskKind::CreateDirectory => "Created directory: "@ + to,
                TaskKind::CreateFile => "Created file: "@ + to,
                TaskKind::Move { .. } => "Moved "@ + from + " -> "@ + to,
                TaskKind::CopyFile => "Copied contents of file "@ + from + " to "@ + to,
                TaskKind::CopyTree => "Copied "@ + from + " to "@ + to,
                TaskKind::Delete => if task.stage == Stage::RemoveTree {
                    "Deleted directory: "@ + from
                } else {
                    "Deleted file: "@ + from
                },
            };
            let failed = match task.kind {
                TaskKind::CreateDirectory => "Unable to create directory "@ + to,
                TaskKind::CreateFile => "Unable to create file "@ + to,
                TaskKind::Move { directory: true } => "Unable to move directory "@ + from
                    + " -> "@ + to,
                TaskKind::Move { directory: false } => "Unable to move file "@ + from + " -> "@
                    + to,
                TaskKind::CopyFile => "Unable to copy from file "@ + from + " to "@ + to,
                TaskKind::CopyTree => "Unable to copy "@ + from + " to "@ + to,
                TaskKind::Delete => if task.stage == Stage::RemoveTree {
                    "Unable to delete directory "@ + from
                } else {
                    "Unable to delete file "@ + from
                },
            };
            &&& next(task, EventView::Went(None)).1 == EffectView::Report(Some(Ok(done)))
            &&& next(task, EventView::Went(Some(reason))).1 == EffectView::Report(
                Some(Err(failed + ": "@ + reason)),
            )
        }),
{
}

/// What goes wrong on the way is reported, with the reason, and ends the task.
pub proof fn law_troubles_end_a_task(task: TaskView, reason: Seq<char>)
    ensures
        next(TaskView { stage: Stage::Parents, ..task }, EventView::Went(Some(reason))) == (
            Stage::Over,
            EffectView::Report(
                Some(Err("Could not create intermediate directories: "@ + reason)),
            ),
        ),
        next(TaskView { stage: Stage::Inspect, ..task }, EventView::Found(Err(reason))) == (
            Stage::Over,
            EffectView::Report(
                Some(Err("Unable to read "@ + text::lossy_text(task.from) + ": "@ + reason)),
            ),
        ),
        next(TaskView { stage: Stage::SourceKind, ..task }, EventView::Is(true)) == (
            Stage::Over,
            EffectView::Report(
                Some(
                    Err(
                        "Copying directories is not supported: "@ + text::lossy_text(task.from)
                            + " is a directory"@,
                    ),
                ),
            ),
        ),
        next(TaskView { stage: Stage::Parents, ..task }, EventView::Went(None)) == (
            Stage::Act,
            EffectView::MakeFile(task.to),
        ),
        next(TaskView { stage: Stage::Inspect, ..task }, EventView::Found(Ok(true))) == (
            Stage::RemoveTree,
            EffectView::RemoveTree(task.from),
        ),
        next(TaskView { stage: Stage::Inspect, ..task }, EventView::Found(Ok(false))) == (
            Stage::RemoveFile,
            EffectView::RemoveFile(task.from),
        ),
{
}

/// What is typed decides what is begun: an entry named with a slash at its end
/// is a directory, and any other a file. Nothing is made, moved or copied
/// before it was asked what is at the target, which is where the typed path
/// leads from the entry. A directory cannot be copied as a file.
pub proof fn law_what_is_typed_is_begun(
    p: Seq<u8>,
    root: Seq<u8>,
    input: Seq<char>,
    home: Option<Seq<u8>>,
    kind: Prompted,
)
    requires
        kind != Prompted::Delete,
    ensures
        ({
            let (task, effect) = first(kind, p, root, input, home);
            let slash = input.len() > 0 && input[input.len() - 1] == '/';
            &&& task.from == p
            &&& task.to == explorer::destination(p, encode_utf8(input), home)
            &&& kind == Prompted::Create && slash ==> task.kind is CreateDirectory
            &&& kind == Prompted::Create && !slash ==> task.kind is CreateFile
            &&& kind == Prompted::Move || kind == Prompted::Rename ==> task.kind == (
            TaskKind::Move { directory: slash })
            &&& kind == Prompted::Copy ==> task.kind is CopyFile
            &&& kind != Prompted::Copy ==> task.stage == Stage::Target && effect
                == EffectView::AskExists(task.to)
            &&& kind == Prompted::Copy && !slash ==> task.stage == Stage::SourceKind && effect
                == EffectView::AskIsDir(p)
            &&& kind == Prompted::Copy && slash ==> task.stage == Stage::Over && effect
                == EffectView::Report(
                Some(
                    Err(
                        "Copying directories is not supported: "@ + text::lossy_text(p)
                            + " is a directory"@,
                    ),
                ),
            )
        }),
{
}

/// A deletion that is agreed to, of an entry that may be deleted, first looks
/// at the entry; one that is not agreed to ends without a word, and one that is
/// refused says why.
pub proof fn law_deletions_look_first(
    p: Seq<u8>,
    root: Seq<u8>,
    input: Seq<char>,
    home: Option<Seq<u8>>,
)
    ensures
        ({
            let (task, effect) = first(Prompted::Delete, p, root, input, home);
            &&& task.kind is Delete && task.from == p && task.to == p
            &&& input != "y"@ ==> task.stage == Stage::Over && effect == EffectView::Report(None)
            &&& input == "y"@ ==> match explorer::refusal(root, p) {
                Some(why) => task.stage == Stage::Over && effect == EffectView::Report(
                    Some(Err(why)),
                ),
                None => task.stage == Stage::Inspect && effect == EffectView::Inspect(p),
            }
        }),
{
}

/// A task is seen as it is.
pub proof fn law_tasks_are_seen_as_they_are(task: Task)
    ensures
        task@.kind == task.kind,
        task@.from == task.from.bytes@,
        task@.to == task.to.bytes@,
        task@.stage == task.stage,
{
}

/// An effect is seen as it is: paths by their bytes and text by its characters,
/// source before target.
pub proof fn law_effects_are_seen_as_they_are(from: FilePath, to: FilePath, said: String)
    ensures
        Effect::AskIsDir(from)@ == EffectView::AskIsDir(from.bytes@),
        Effect::AskExists(to)@ == EffectView::AskExists(to.bytes@),
        Effect::Confirm(said)@ == EffectView::Confirm(said@),
        Effect::MakeDirs(to)@ == EffectView::MakeDirs(to.bytes@),
        Effect::MakeFile(to)@ == EffectView::MakeFile(to.bytes@),
        Effect::Move(from, to)@ == EffectView::Move(from.bytes@, to.bytes@),
        Effect::CopyFile(from, to)@ == EffectView::CopyFile(from.bytes@, to.bytes@),
        Effect::CopyTree(from, to)@ == EffectView::CopyTree(from.bytes@, to.bytes@),
        Effect::Inspect(from)@ == EffectView::Inspect(from.bytes@),
        Effect::RemoveTree(from)@ == EffectView::RemoveTree(from.bytes@),
        Effect::RemoveFile(from)@ == EffectView::RemoveFile(from.bytes@),
        Effect::Report(None)@ == EffectView::Report(None),
        Effect::Report(Some(Ok(said)))@ == EffectView::Report(Some(Ok(said@))),
        Effect::Report(Some(Err(said)))@ == EffectView::Report(Some(Err(said@))),
{
}

/// What a task is told is seen as it is.
pub proof fn law_events_are_seen_as_they_are(yes: bool, said: String)
    ensures
        Event::Is(yes)@ == EventView::Is(yes),
        Event::Typed(said)@ == EventView::Typed(said@),
        Event::Went(Ok(()))@ == EventView::Went(None),
        Event::Went(Err(said))@ == EventView::Went(Some(said@)),
        Event::Found(Ok(yes))@ == EventView::Found(Ok(yes)),
        Event::Found(Err(said))@ == EventView::Found(Err(said@)),
{
}

/// Whatever a task that is to move an entry is told, at whatever stage: if
/// something is written next, it is the entry that is moved to its target. Only
/// the stage at which the directories above a new file have been made is left
/// out; a move is never at it.
pub proof fn law_moves_write_nothing_else(task: TaskView, event: EventView)
    requires
        task.kind is Move,
        task.stage != Stage::Parents,
        awaits(task.stage, event),
    ensures
        match next(task, event).1 {
            EffectView::MakeDirs(_) | EffectView::MakeFile(_) | EffectView::CopyFile(_, _)
            | EffectView::CopyTree(_, _) => false,
            EffectView::Move(from, to) => from == task.from && to == task.to,
            _ => true,
        },
{
}

} // verus!
