//! File system paths as the explorer sees them: bytes in which `/` separates
//! the components.
use vstd::prelude::*;
use crate::text;

verus! {

/// The byte between two components.
pub const SEPARATOR: u8 = 47;

/// The byte that sets an extension off from the rest of a file name.
pub const DOT: u8 = 46;

/// A path. Any bytes are a path; most of them name no file.
pub struct FilePath {
    pub bytes: Vec<u8>,
}

impl View for FilePath {
    type V = Seq<u8>;

    open spec fn view(&self) -> Seq<u8> {
        self.bytes@
    }
}

/// The pieces of a path between its separators, empty ones included: one more
/// than there are separators.
pub open spec fn split(p: Seq<u8>) -> Seq<Seq<u8>>
    decreases p.len(),
{
    if p.len() == 0 {
        seq![Seq::<u8>::empty()]
    } else {
        let before = split(p.drop_last());
        if p.last() == SEPARATOR {
            before.push(Seq::<u8>::empty())
        } else {
            before.drop_last().push(before.last().push(p.last()))
        }
    }
}

/// Pieces put together again, with a separator between each two.
pub open spec fn join_pieces(pieces: Seq<Seq<u8>>) -> Seq<u8>
    decreases pieces.len(),
{
    if pieces.len() == 0 {
        Seq::<u8>::empty()
    } else if pieces.len() == 1 {
        pieces[0]
    } else {
        join_pieces(pieces.drop_last()).push(SEPARATOR) + pieces.last()
    }
}

/// The component that stands for the directory itself.
pub open spec fn is_cur_dir(piece: Seq<u8>) -> bool {
    piece == seq![DOT]
}

/// The component that stands for the directory above.
pub open spec fn is_parent_dir(piece: Seq<u8>) -> bool {
    piece == seq![DOT, DOT]
}

/// Whether a piece counts as a component: empty pieces never do, and `.` does
/// only at the very start of a path.
pub open spec fn counts(piece: Seq<u8>, first: bool) -> bool {
    piece.len() > 0 && (first || !is_cur_dir(piece))
}

/// The pieces that count as components.
pub open spec fn components(pieces: Seq<Seq<u8>>) -> Seq<Seq<u8>>
    decreases pieces.len(),
{
    if pieces.len() == 0 {
        Seq::empty()
    } else {
        let before = components(pieces.drop_last());
        if counts(pieces.last(), pieces.len() == 1) {
            before.push(pieces.last())
        } else {
            before
        }
    }
}

/// The components of a path. The root of an absolute path is not among them.
pub open spec fn names(p: Seq<u8>) -> Seq<Seq<u8>> {
    components(split(p))
}

/// Whether a path starts at the root of the file system.
pub open spec fn absolute(p: Seq<u8>) -> bool {
    p.len() > 0 && p[0] == SEPARATOR
}

/// Components without `.` and with each `..` taken together with the component
/// that it leaves. A `..` with nothing to leave is dropped.
pub open spec fn normal(parts: Seq<Seq<u8>>) -> Seq<Seq<u8>>
    decreases parts.len(),
{
    if parts.len() == 0 {
        Seq::empty()
    } else {
        let before = normal(parts.drop_last());
        if is_cur_dir(parts.last()) {
            before
        } else if is_parent_dir(parts.last()) {
            if before.len() > 0 {
                before.drop_last()
            } else {
                before
            }
        } else {
            before.push(parts.last())
        }
    }
}

/// A path written from its components.
pub open spec fn rendered(is_absolute: bool, parts: Seq<Seq<u8>>) -> Seq<u8> {
    if is_absolute {
        seq![SEPARATOR] + join_pieces(parts)
    } else {
        join_pieces(parts)
    }
}

/// Byte strings of an executable vector, as sequences.
pub open spec fn pieces_view(pieces: Seq<Vec<u8>>) -> Seq<Seq<u8>> {
    pieces.map_values(|v: Vec<u8>| v@)
}

/// The index of the last piece that counts as a component.
pub open spec fn last_component(pieces: Seq<Seq<u8>>) -> Option<int>
    decreases pieces.len(),
{
    if pieces.len() == 0 {
        None
    } else if counts(pieces.last(), pieces.len() == 1) {
        Some(pieces.len() - 1)
    } else {
        last_component(pieces.drop_last())
    }
}

/// The path without its last component; `None` for a path that has none.
pub open spec fn parent_of(p: Seq<u8>) -> Option<Seq<u8>> {
    match last_component(split(p)) {
        None => None,
        Some(k) => match last_component(split(p).take(k)) {
            Some(j) => Some(join_pieces(split(p).take(j + 1))),
            None => Some(
                if absolute(p) {
                    seq![SEPARATOR]
                } else {
                    Seq::<u8>::empty()
                },
            ),
        },
    }
}

/// The last component, if it names something rather than pointing upwards or
/// at the directory itself.
pub open spec fn file_name_of(p: Seq<u8>) -> Option<Seq<u8>> {
    match last_component(split(p)) {
        None => None,
        Some(k) => {
            let name = split(p)[k];
            if is_cur_dir(name) || is_parent_dir(name) {
                None
            } else {
                Some(name)
            }
        },
    }
}

/// Where the last dot of a name stands.
pub open spec fn last_dot(name: Seq<u8>) -> Option<int>
    decreases name.len(),
{
    if name.len() == 0 {
        None
    } else if name.last() == DOT {
        Some(name.len() - 1)
    } else {
        last_dot(name.drop_last())
    }
}

/// What follows the last dot of the file name, unless that dot starts it.
pub open spec fn extension_of(p: Seq<u8>) -> Option<Seq<u8>> {
    match file_name_of(p) {
        None => None,
        Some(name) => match last_dot(name) {
            Some(i) => if i > 0 {
                Some(name.subrange(i + 1, name.len() as int))
            } else {
                None
            },
            None => None,
        },
    }
}

/// A path taken relative to another; an absolute one stands on its own.
pub open spec fn joined(base: Seq<u8>, tail: Seq<u8>) -> Seq<u8> {
    if absolute(tail) {
        tail
    } else if base.len() == 0 || base.last() == SEPARATOR {
        base + tail
    } else {
        base.push(SEPARATOR) + tail
    }
}

/// Two paths with the same components are the same path.
pub open spec fn same_path(a: Seq<u8>, b: Seq<u8>) -> bool {
    absolute(a) == absolute(b) && names(a) == names(b)
}

/// Whether `parts` begins with `prefix`.
pub open spec fn begins_with(parts: Seq<Seq<u8>>, prefix: Seq<Seq<u8>>) -> bool {
    prefix.len() <= parts.len() && parts.take(prefix.len() as int) == prefix
}

/// The index of the piece that is component `n`, counted from zero.
pub open spec fn nth_component(pieces: Seq<Seq<u8>>, n: int) -> Option<int>
    decreases pieces.len(),
{
    if pieces.len() == 0 {
        None
    } else if counts(pieces.last(), pieces.len() == 1) && components(pieces.drop_last()).len() == n {
        Some(pieces.len() - 1)
    } else {
        nth_component(pieces.drop_last(), n)
    }
}

/// What is left of a path without its first `n` components, from the start of
/// one component to the end of the last.
pub open spec fn tail_from(p: Seq<u8>, n: int) -> Seq<u8> {
    match nth_component(split(p), n) {
        Some(i) => join_pieces(split(p).subrange(i, last_component(split(p)).unwrap() + 1)),
        None => Seq::<u8>::empty(),
    }
}

/// A path up to the end of its last component.
pub open spec fn without_trailer(p: Seq<u8>) -> Seq<u8> {
    match last_component(split(p)) {
        Some(k) => join_pieces(split(p).take(k + 1)),
        None => if absolute(p) {
            seq![SEPARATOR]
        } else {
            Seq::<u8>::empty()
        },
    }
}

/// A path at or below `base`, relative to it. Every path is below the empty
/// one.
pub open spec fn stripped(p: Seq<u8>, base: Seq<u8>) -> Option<Seq<u8>> {
    if !absolute(base) && names(base).len() == 0 {
        Some(without_trailer(p))
    } else if absolute(p) == absolute(base) && begins_with(names(p), names(base)) {
        Some(tail_from(p, names(base).len() as int))
    } else {
        None
    }
}

/// A path always has at least one piece.
pub proof fn lemma_split_nonempty(p: Seq<u8>)
    ensures
        split(p).len() > 0,
    decreases p.len(),
{
    if p.len() > 0 {
        lemma_split_nonempty(p.drop_last());
    }
}

/// Whether bytes are the name of something in a directory.
pub open spec fn is_plain_name(name: Seq<u8>) -> bool {
    name.len() > 0 && !name.contains(SEPARATOR) && !is_cur_dir(name) && !is_parent_dir(name)
}

/// A piece without separators, behind one, is a piece of its own.
proof fn lemma_split_behind_separator(p: Seq<u8>, piece: Seq<u8>)
    requires
        !piece.contains(SEPARATOR),
    ensures
        split(p.push(SEPARATOR) + piece) == split(p).push(piece),
    decreases piece.len(),
{
    let whole = p.push(SEPARATOR) + piece;
    if piece.len() == 0 {
        assert(whole =~= p.push(SEPARATOR));
        assert(whole.drop_last() =~= p);
        assert(piece =~= Seq::<u8>::empty());
    } else {
        let shorter = piece.drop_last();
        assert forall|i: int| 0 <= i < shorter.len() implies shorter[i] != SEPARATOR by {
            assert(piece[i] == shorter[i]);
        }
        lemma_split_behind_separator(p, shorter);
        assert(whole.drop_last() =~= p.push(SEPARATOR) + shorter);
        assert(piece[piece.len() - 1] == whole.last());
        let before = split(p).push(shorter);
        assert(before.drop_last() =~= split(p));
        assert(shorter.push(piece.last()) =~= piece);
    }
}

/// An entry of a directory has the components of the directory, and its name.
pub proof fn lemma_names_of_entry(dir: Seq<u8>, name: Seq<u8>)
    requires
        is_plain_name(name),
    ensures
        names(joined(dir, name)) == names(dir).push(name),
        absolute(joined(dir, name)) == absolute(dir),
{
    let none = Seq::<u8>::empty();
    assert(!absolute(name)) by {
        if absolute(name) {
            assert(name[0] == SEPARATOR);
        }
    }
    if dir.len() == 0 {
        assert(dir =~= none);
        assert(joined(dir, name) =~= name);
        lemma_split_without_separator(name);
        reveal_with_fuel(components, 2);
        assert(split(dir) =~= seq![none]);
        assert(components(seq![none]) =~= Seq::<Seq<u8>>::empty()) by {
            assert(seq![none].drop_last() =~= Seq::<Seq<u8>>::empty());
        }
        assert(components(seq![name]) =~= seq![name]) by {
            assert(seq![name].drop_last() =~= Seq::<Seq<u8>>::empty());
        }
        assert(Seq::<Seq<u8>>::empty().push(name) =~= seq![name]);
    } else if dir.last() == SEPARATOR {
        let above = dir.drop_last();
        assert(above.push(SEPARATOR) =~= dir);
        lemma_split_nonempty(above);
        lemma_split_behind_separator(above, name);
        let pieces = split(above);
        assert(split(dir) == pieces.push(none));
        assert(pieces.push(none).drop_last() =~= pieces);
        assert(pieces.push(name).drop_last() =~= pieces);
        assert(components(pieces.push(none)) == components(pieces));
    } else {
        lemma_split_nonempty(dir);
        lemma_split_behind_separator(dir, name);
        let pieces = split(dir);
        assert(pieces.push(name).drop_last() =~= pieces);
    }
}

/// A name without separators is a path of one piece.
proof fn lemma_split_without_separator(name: Seq<u8>)
    requires
        !name.contains(SEPARATOR),
    ensures
        split(name) == seq![name],
    decreases name.len(),
{
    if name.len() == 0 {
        assert(name =~= Seq::<u8>::empty());
    } else {
        let shorter = name.drop_last();
        assert forall|i: int| 0 <= i < shorter.len() implies shorter[i] != SEPARATOR by {
            assert(name[i] == shorter[i]);
        }
        lemma_split_without_separator(shorter);
        assert(name[name.len() - 1] == name.last());
        assert(seq![shorter].drop_last().push(shorter.push(name.last())) =~= seq![name]) by {
            assert(shorter.push(name.last()) =~= name);
        }
    }
}

/// The last dot of a name stands in it.
pub proof fn lemma_last_dot(name: Seq<u8>)
    ensures
        last_dot(name) matches Some(i) ==> 0 <= i < name.len() && name[i] == DOT,
    decreases name.len(),
{
    if name.len() > 0 {
        lemma_last_dot(name.drop_last());
    }
}

/// Copies bytes.
pub fn copy_bytes(bytes: &[u8]) -> (copy: Vec<u8>)
    ensures
        copy@ == bytes@,
{
    vstd::slice::slice_to_vec(bytes)
}

/// Whether two byte strings are equal.
pub fn same_bytes(a: &[u8], b: &[u8]) -> (same: bool)
    ensures
        same == (a@ == b@),
{
    if a.len() != b.len() {
        return false;
    }
    let mut i: usize = 0;
    while i < a.len()
        invariant
            a@.len() == b@.len(),
            i <= a@.len(),
            forall|j: int| 0 <= j < i ==> a@[j] == b@[j],
        decreases a@.len() - i,
    {
        if a[i] != b[i] {
            return false;
        }
        i += 1;
    }
    assert(a@ =~= b@);
    true
}

/// Cuts a path at its separators.
pub fn split_path(p: &[u8]) -> (pieces: Vec<Vec<u8>>)
    ensures
        pieces_view(pieces@) == split(p@),
{
    let mut pieces: Vec<Vec<u8>> = Vec::new();
    let mut current: Vec<u8> = Vec::new();
    let mut i: usize = 0;
    assert(p@.take(0) =~= Seq::<u8>::empty());
    assert(pieces_view(pieces@).push(current@) =~= split(p@.take(0)));
    while i < p.len()
        invariant
            i <= p@.len(),
            pieces_view(pieces@).push(current@) == split(p@.take(i as int)),
        decreases p@.len() - i,
    {
        let ghost before = split(p@.take(i as int));
        assert(p@.take(i + 1).drop_last() =~= p@.take(i as int));
        assert(before.last() == current@);
        assert(before.drop_last() =~= pieces_view(pieces@));
        if p[i] == SEPARATOR {
            let ghost old_pieces = pieces@;
            pieces.push(current);
            current = Vec::new();
            assert(pieces_view(pieces@) =~= before);
        } else {
            current.push(p[i]);
        }
        i += 1;
        assert(pieces_view(pieces@).push(current@) =~= split(p@.take(i as int)));
    }
    assert(p@.take(p@.len() as int) =~= p@);
    let ghost done = pieces@;
    let ghost last = current@;
    pieces.push(current);
    assert(pieces_view(pieces@) =~= pieces_view(done).push(last));
    pieces
}

/// Puts pieces together with separators between them.
pub fn join_all(pieces: &[Vec<u8>]) -> (joined: Vec<u8>)
    ensures
        joined@ == join_pieces(pieces_view(pieces@)),
{
    let mut out: Vec<u8> = Vec::new();
    let mut i: usize = 0;
    let ghost all = pieces_view(pieces@);
    assert(all.take(0) =~= Seq::<Seq<u8>>::empty());
    while i < pieces.len()
        invariant
            i <= pieces@.len(),
            all == pieces_view(pieces@),
            out@ == join_pieces(all.take(i as int)),
        decreases pieces@.len() - i,
    {
        assert(all.take(i + 1).drop_last() =~= all.take(i as int));
        assert(all.take(i + 1).last() == pieces@[i as int]@);
        if i > 0 {
            out.push(SEPARATOR);
        }
        let mut piece: Vec<u8> = copy_bytes(pieces[i].as_slice());
        out.append(&mut piece);
        i += 1;
        assert(out@ =~= join_pieces(all.take(i as int)));
    }
    assert(all.take(all.len() as int) =~= all);
    out
}

/// Whether a piece counts as a component.
fn piece_counts(piece: &Vec<u8>, first: bool) -> (yes: bool)
    ensures
        yes == counts(piece@, first),
{
    let cur: [u8; 1] = [DOT];
    let is_cur: bool = same_bytes(piece.as_slice(), &cur);
    assert(cur@ =~= seq![DOT]);
    piece.len() > 0 && (first || !is_cur)
}

/// Whether a component points upwards.
fn points_up(piece: &Vec<u8>) -> (yes: bool)
    ensures
        yes == is_parent_dir(piece@),
{
    let up: [u8; 2] = [DOT, DOT];
    assert(up@ =~= seq![DOT, DOT]);
    same_bytes(piece.as_slice(), &up)
}

/// Whether a component points at the directory itself.
fn points_here(piece: &Vec<u8>) -> (yes: bool)
    ensures
        yes == is_cur_dir(piece@),
{
    let here: [u8; 1] = [DOT];
    assert(here@ =~= seq![DOT]);
    same_bytes(piece.as_slice(), &here)
}

/// The last of the first `end` pieces that counts as a component.
fn find_component(pieces: &Vec<Vec<u8>>, end: usize) -> (found: Option<usize>)
    requires
        end <= pieces@.len(),
    ensures
        match found {
            Some(k) => last_component(pieces_view(pieces@).take(end as int)) == Some(k as int)
                && k < end,
            None => last_component(pieces_view(pieces@).take(end as int)) is None,
        },
{
    let ghost all = pieces_view(pieces@);
    let mut i: usize = end;
    while i > 0
        invariant
            i <= end <= pieces@.len(),
            all == pieces_view(pieces@),
            last_component(all.take(end as int)) == last_component(all.take(i as int)),
        decreases i,
    {
        assert(all.take(i as int).drop_last() =~= all.take(i - 1));
        assert(all.take(i as int).last() == pieces@[i - 1]@);
        if piece_counts(&pieces[i - 1], i == 1) {
            return Some(i - 1);
        }
        i -= 1;
    }
    None
}

impl FilePath {
    /// A path from text.
    pub fn from_text(text: &str) -> (path: FilePath)
        ensures
            path@ == vstd::utf8::encode_utf8(text@),
    {
        FilePath { bytes: copy_bytes(text.as_bytes()) }
    }

    /// An equal path.
    pub fn duplicate(&self) -> (copy: FilePath)
        ensures
            copy@ == self@,
    {
        FilePath { bytes: copy_bytes(self.bytes.as_slice()) }
    }

    /// The path as text to show, with what is not UTF-8 replaced.
    pub fn display(&self) -> (text: String)
        ensures
            text@ == text::lossy_text(self@),
            vstd::utf8::valid_utf8(self@) ==> text@ == vstd::utf8::decode_utf8(self@),
    {
        text::to_lossy(self.bytes.as_slice())
    }

    /// Whether the path starts at the root of the file system.
    pub fn is_absolute(&self) -> (yes: bool)
        ensures
            yes == absolute(self@),
    {
        self.bytes.len() > 0 && self.bytes[0] == SEPARATOR
    }

    /// The components of the path.
    pub fn component_names(&self) -> (parts: Vec<Vec<u8>>)
        ensures
            pieces_view(parts@) == names(self@),
    {
        let pieces: Vec<Vec<u8>> = split_path(self.bytes.as_slice());
        let ghost all = pieces_view(pieces@);
        let mut parts: Vec<Vec<u8>> = Vec::new();
        let mut i: usize = 0;
        assert(all.take(0) =~= Seq::<Seq<u8>>::empty());
        assert(pieces_view(parts@) =~= components(all.take(0)));
        while i < pieces.len()
            invariant
                i <= pieces@.len(),
                all == pieces_view(pieces@),
                pieces_view(parts@) == components(all.take(i as int)),
            decreases pieces@.len() - i,
        {
            assert(all.take(i + 1).drop_last() =~= all.take(i as int));
            assert(all.take(i + 1).last() == pieces@[i as int]@);
            if piece_counts(&pieces[i], i == 0) {
                let ghost before = parts@;
                let piece: Vec<u8> = copy_bytes(pieces[i].as_slice());
                parts.push(piece);
                assert(pieces_view(parts@) =~= pieces_view(before).push(piece@));
            }
            i += 1;
        }
        assert(all.take(all.len() as int) =~= all);
        parts
    }

    /// The path without its last component, or `None` if it has none.
    pub fn parent(&self) -> (parent: Option<FilePath>)
        ensures
            match parent {
                Some(p) => parent_of(self@) == Some(p@),
                None => parent_of(self@) is None,
            },
    {
        let pieces: Vec<Vec<u8>> = split_path(self.bytes.as_slice());
        let ghost all = pieces_view(pieces@);
        assert(all.take(all.len() as int) =~= all);
        match find_component(&pieces, pieces.len()) {
            None => None,
            Some(k) => match find_component(&pieces, k) {
                Some(j) => {
                    let upper: &[Vec<u8>] = vstd::slice::slice_subrange(pieces.as_slice(), 0, j + 1);
                    assert(pieces_view(upper@) =~= all.take(j + 1));
                    Some(FilePath { bytes: join_all(upper) })
                },
                None => {
                    let mut bytes: Vec<u8> = Vec::new();
                    if self.is_absolute() {
                        bytes.push(SEPARATOR);
                        assert(bytes@ =~= seq![SEPARATOR]);
                    }
                    Some(FilePath { bytes })
                },
            },
        }
    }

    /// The last component, if it is an ordinary name.
    pub fn file_name(&self) -> (name: Option<Vec<u8>>)
        ensures
            match name {
                Some(n) => file_name_of(self@) == Some(n@),
                None => file_name_of(self@) is None,
            },
    {
        let pieces: Vec<Vec<u8>> = split_path(self.bytes.as_slice());
        let ghost all = pieces_view(pieces@);
        assert(all.take(all.len() as int) =~= all);
        match find_component(&pieces, pieces.len()) {
            None => None,
            Some(k) => {
                assert(all[k as int] == pieces@[k as int]@);
                if points_here(&pieces[k]) || points_up(&pieces[k]) {
                    None
                } else {
                    Some(copy_bytes(pieces[k].as_slice()))
                }
            },
        }
    }

    /// What follows the last dot of the file name.
    pub fn extension(&self) -> (ext: Option<Vec<u8>>)
        ensures
            match ext {
                Some(e) => extension_of(self@) == Some(e@),
                None => extension_of(self@) is None,
            },
    {
        match self.file_name() {
            None => None,
            Some(name) => {
                let mut i: usize = name.len();
                assert(name@.take(name@.len() as int) =~= name@);
                while i > 0
                    invariant
                        i <= name@.len(),
                        last_dot(name@) == last_dot(name@.take(i as int)),
                        file_name_of(self@) == Some(name@),
                    decreases i,
                {
                    assert(name@.take(i as int).drop_last() =~= name@.take(i - 1));
                    if name[i - 1] == DOT {
                        if i - 1 == 0 {
                            return None;
                        }
                        return Some(
                            copy_bytes(vstd::slice::slice_subrange(name.as_slice(), i, name.len())),
                        );
                    }
                    i -= 1;
                }
                None
            },
        }
    }

    /// Takes `tail` relative to this path.
    pub fn join(&self, tail: &FilePath) -> (path: FilePath)
        ensures
            path@ == joined(self@, tail@),
    {
        if tail.is_absolute() {
            return tail.duplicate();
        }
        let mut bytes: Vec<u8> = copy_bytes(self.bytes.as_slice());
        if bytes.len() > 0 && bytes[bytes.len() - 1] != SEPARATOR {
            bytes.push(SEPARATOR);
        }
        let mut rest: Vec<u8> = copy_bytes(tail.bytes.as_slice());
        bytes.append(&mut rest);
        assert(bytes@ =~= joined(self@, tail@));
        FilePath { bytes }
    }

    /// Whether two paths have the same components.
    pub fn same(&self, other: &FilePath) -> (yes: bool)
        ensures
            yes == same_path(self@, other@),
    {
        let a: Vec<Vec<u8>> = self.component_names();
        let b: Vec<Vec<u8>> = other.component_names();
        assert(names(self@).len() == a@.len() && names(other@).len() == b@.len());
        self.is_absolute() == other.is_absolute() && a.len() == b.len() && prefix_of(&b, &a)
    }

    /// The path relative to `base`, if it lies at or below it.
    pub fn strip_prefix(&self, base: &FilePath) -> (rest: Option<FilePath>)
        ensures
            match rest {
                Some(r) => stripped(self@, base@) == Some(r@),
                None => stripped(self@, base@) is None,
            },
    {
        let parts: Vec<Vec<u8>> = self.component_names();
        let above: Vec<Vec<u8>> = base.component_names();
        assert(pieces_view(above@).len() == above@.len());
        if !base.is_absolute() && above.len() == 0 {
            return Some(self.trimmed());
        }
        if self.is_absolute() != base.is_absolute() || !prefix_of(&above, &parts) {
            return None;
        }
        Some(FilePath { bytes: self.without_components(above.len()) })
    }

    /// The path up to the end of its last component.
    pub fn trimmed(&self) -> (path: FilePath)
        ensures
            path@ == without_trailer(self@),
    {
        let pieces: Vec<Vec<u8>> = split_path(self.bytes.as_slice());
        let ghost all = pieces_view(pieces@);
        assert(all.take(all.len() as int) =~= all);
        match find_component(&pieces, pieces.len()) {
            Some(k) => {
                let upper: &[Vec<u8>] = vstd::slice::slice_subrange(pieces.as_slice(), 0, k + 1);
                assert(pieces_view(upper@) =~= all.take(k + 1));
                FilePath { bytes: join_all(upper) }
            },
            None => {
                let mut bytes: Vec<u8> = Vec::new();
                if self.is_absolute() {
                    bytes.push(SEPARATOR);
                    assert(bytes@ =~= seq![SEPARATOR]);
                }
                FilePath { bytes }
            },
        }
    }

    /// What is left of the path without its first `n` components.
    pub fn without_components(&self, n: usize) -> (tail: Vec<u8>)
        ensures
            tail@ == tail_from(self@, n as int),
    {
        let pieces: Vec<Vec<u8>> = split_path(self.bytes.as_slice());
        let ghost all = pieces_view(pieces@);
        let mut start: Option<usize> = None;
        let mut end: usize = 0;
        let mut seen: usize = 0;
        let mut i: usize = 0;
        assert(all.take(0) =~= Seq::<Seq<u8>>::empty());
        while i < pieces.len()
            invariant
                i <= pieces@.len(),
                seen <= i,
                all == pieces_view(pieces@),
                seen == components(all.take(i as int)).len(),
                match start {
                    Some(s) => nth_component(all.take(i as int), n as int) == Some(s as int) && s
                        < i && s < end,
                    None => nth_component(all.take(i as int), n as int) is None,
                },
                match last_component(all.take(i as int)) {
                    Some(k) => end == k + 1,
                    None => end == 0,
                },
                end <= i,
            decreases pieces@.len() - i,
        {
            assert(all.take(i + 1).drop_last() =~= all.take(i as int));
            assert(all.take(i + 1).last() == pieces@[i as int]@);
            if piece_counts(&pieces[i], i == 0) {
                if seen == n {
                    start = Some(i);
                }
                seen += 1;
                end = i + 1;
            }
            i += 1;
        }
        assert(all.take(all.len() as int) =~= all);
        match start {
            None => Vec::new(),
            Some(s) => {
                let rest: &[Vec<u8>] = vstd::slice::slice_subrange(pieces.as_slice(), s, end);
                assert(pieces_view(rest@) =~= all.subrange(s as int, end as int));
                join_all(rest)
            },
        }
    }
}

/// Whether `parts` begins with the components of `prefix`.
pub fn prefix_of(prefix: &Vec<Vec<u8>>, parts: &Vec<Vec<u8>>) -> (yes: bool)
    ensures
        yes == begins_with(pieces_view(parts@), pieces_view(prefix@)),
        parts@.len() == prefix@.len() ==> yes == (pieces_view(parts@) == pieces_view(prefix@)),
{
    let ghost p = pieces_view(parts@);
    let ghost q = pieces_view(prefix@);
    assert(p.len() == q.len() ==> p.take(q.len() as int) =~= p);
    if prefix.len() > parts.len() {
        return false;
    }
    let mut i: usize = 0;
    while i < prefix.len()
        invariant
            i <= prefix@.len() <= parts@.len(),
            p == pieces_view(parts@),
            q == pieces_view(prefix@),
            forall|j: int| 0 <= j < i ==> p[j] == q[j],
        decreases prefix@.len() - i,
    {
        assert(p[i as int] == parts@[i as int]@);
        assert(q[i as int] == prefix@[i as int]@);
        if !same_bytes(prefix[i].as_slice(), parts[i].as_slice()) {
            assert(p.take(q.len() as int)[i as int] != q[i as int]);
            return false;
        }
        i += 1;
    }
    assert(p.take(q.len() as int) =~= q);
    true
}

/// Components with every `.` dropped and every `..` resolved by its place in
/// the path, without looking at the file system.
pub fn normalize(path: &FilePath) -> (parts: Vec<Vec<u8>>)
    ensures
        pieces_view(parts@) == normal(names(path@)),
{
    let given: Vec<Vec<u8>> = path.component_names();
    let ghost all = pieces_view(given@);
    let mut parts: Vec<Vec<u8>> = Vec::new();
    let mut i: usize = 0;
    assert(all.take(0) =~= Seq::<Seq<u8>>::empty());
    assert(pieces_view(parts@) =~= normal(all.take(0)));
    while i < given.len()
        invariant
            i <= given@.len(),
            all == pieces_view(given@),
            pieces_view(parts@) == normal(all.take(i as int)),
        decreases given@.len() - i,
    {
        assert(all.take(i + 1).drop_last() =~= all.take(i as int));
        assert(all.take(i + 1).last() == given@[i as int]@);
        let ghost before = parts@;
        if points_here(&given[i]) {
        } else if points_up(&given[i]) {
            if parts.len() > 0 {
                parts.pop();
                assert(pieces_view(parts@) =~= pieces_view(before).drop_last());
            }
        } else {
            let piece: Vec<u8> = copy_bytes(given[i].as_slice());
            parts.push(piece);
            assert(pieces_view(parts@) =~= pieces_view(before).push(piece@));
        }
        i += 1;
    }
    assert(all.take(all.len() as int) =~= all);
    parts
}

/// The path that components spell.
pub fn render(is_absolute: bool, parts: &Vec<Vec<u8>>) -> (path: FilePath)
    ensures
        path@ == rendered(is_absolute, pieces_view(parts@)),
{
    let mut tail: Vec<u8> = join_all(parts.as_slice());
    if is_absolute {
        let mut bytes: Vec<u8> = Vec::new();
        bytes.push(SEPARATOR);
        assert(bytes@ =~= seq![SEPARATOR]);
        bytes.append(&mut tail);
        FilePath { bytes }
    } else {
        FilePath { bytes: tail }
    }
}

/// Pieces put together again are the path that was split.
proof fn lemma_join_undoes_split(p: Seq<u8>)
    ensures
        join_pieces(split(p)) == p,
    decreases p.len(),
{
    if p.len() == 0 {
        assert(p =~= Seq::<u8>::empty());
    } else {
        let before = split(p.drop_last());
        lemma_split_nonempty(p.drop_last());
        lemma_join_undoes_split(p.drop_last());
        let none = Seq::<u8>::empty();
        if p.last() == SEPARATOR {
            assert(before.push(none).drop_last() =~= before);
            assert(join_pieces(before.push(none)) =~= p);
        } else {
            let longer = before.last().push(p.last());
            let pieces = before.drop_last().push(longer);
            assert(pieces.drop_last() =~= before.drop_last());
            if before.len() == 1 {
                assert(pieces[0] =~= p);
            } else {
                let upper = join_pieces(before.drop_last()).push(SEPARATOR);
                assert(join_pieces(before) == upper + before.last());
                assert(pieces.last() == longer);
                assert(upper + longer =~= (upper + before.last()).push(p.last()));
                assert(p.drop_last().push(p.last()) =~= p);
            }
        }
    }
}

/// No piece holds a separator.
proof fn lemma_pieces_hold_no_separator(p: Seq<u8>)
    ensures
        forall|i: int| 0 <= i < split(p).len() ==> !(#[trigger] split(p)[i]).contains(SEPARATOR),
    decreases p.len(),
{
    if p.len() > 0 {
        let before = split(p.drop_last());
        lemma_split_nonempty(p.drop_last());
        lemma_pieces_hold_no_separator(p.drop_last());
        if p.last() != SEPARATOR {
            let longer = before.last().push(p.last());
            assert(!before[before.len() - 1].contains(SEPARATOR));
            assert forall|j: int| 0 <= j < longer.len() implies longer[j] != SEPARATOR by {
                if j < longer.len() - 1 {
                    assert(before.last()[j] == longer[j]);
                }
            }
        }
    }
}

/// Pieces without separators are what a path put together from them is split
/// into.
proof fn lemma_split_undoes_join(pieces: Seq<Seq<u8>>)
    requires
        pieces.len() > 0,
        forall|i: int| 0 <= i < pieces.len() ==> !(#[trigger] pieces[i]).contains(SEPARATOR),
    ensures
        split(join_pieces(pieces)) == pieces,
    decreases pieces.len(),
{
    if pieces.len() == 1 {
        lemma_split_without_separator(pieces[0]);
        assert(seq![pieces[0]] =~= pieces);
    } else {
        let before = pieces.drop_last();
        assert forall|i: int| 0 <= i < before.len() implies !(#[trigger] before[i]).contains(
            SEPARATOR,
        ) by {
            assert(before[i] == pieces[i]);
        }
        lemma_split_undoes_join(before);
        assert(!pieces[pieces.len() - 1].contains(SEPARATOR));
        lemma_split_behind_separator(join_pieces(before), pieces.last());
        assert(before.push(pieces.last()) =~= pieces);
    }
}

/// Splitting cuts a path at its slashes and nowhere else: no piece holds one,
/// and the pieces with a slash between each two are the path again. Pieces
/// without slashes, put together and split, come back.
pub proof fn law_splitting_and_joining_undo_each_other(p: Seq<u8>, pieces: Seq<Seq<u8>>)
    ensures
        join_pieces(split(p)) == p,
        split(p).len() > 0,
        forall|i: int| 0 <= i < split(p).len() ==> !(#[trigger] split(p)[i]).contains(47u8),
        pieces.len() > 0 && (forall|i: int|
            0 <= i < pieces.len() ==> !(#[trigger] pieces[i]).contains(47u8)) ==> split(
            join_pieces(pieces),
        ) == pieces,
        pieces.len() > 1 ==> join_pieces(pieces) == join_pieces(pieces.drop_last()) + seq![47u8]
            + pieces.last(),
{
    lemma_join_undoes_split(p);
    lemma_split_nonempty(p);
    lemma_pieces_hold_no_separator(p);
    if pieces.len() > 0 && (forall|i: int|
        0 <= i < pieces.len() ==> !(#[trigger] pieces[i]).contains(47u8)) {
        lemma_split_undoes_join(pieces);
    }
    if pieces.len() > 1 {
        assert(join_pieces(pieces) =~= join_pieces(pieces.drop_last()) + seq![47u8]
            + pieces.last());
    }
}

/// A path is absolute if it starts with an empty piece before a separator.
proof fn lemma_absolute_pieces(p: Seq<u8>)
    ensures
        absolute(p) <==> split(p).len() > 1 && split(p)[0].len() == 0,
    decreases p.len(),
{
    if p.len() > 0 {
        let shorter = p.drop_last();
        let before = split(shorter);
        lemma_split_nonempty(shorter);
        lemma_absolute_pieces(shorter);
        lemma_join_undoes_split(shorter);
        if before.len() == 1 {
            assert(before[0] == shorter);
        }
        if shorter.len() == 0 {
            assert(before =~= seq![Seq::<u8>::empty()]);
            assert(before.len() == 1);
        } else {
            assert(shorter[0] == p[0]);
        }
    }
}

/// The last piece that counts gives the last component, and nothing behind it
/// counts.
proof fn lemma_last_component(pieces: Seq<Seq<u8>>)
    ensures
        match last_component(pieces) {
            None => components(pieces).len() == 0,
            Some(k) => {
                &&& 0 <= k < pieces.len()
                &&& counts(pieces[k], k == 0)
                &&& components(pieces) == components(pieces.take(k)).push(pieces[k])
                &&& components(pieces) == components(pieces.take(k + 1))
                &&& forall|i: int| k < i < pieces.len() ==> !counts(#[trigger] pieces[i], false)
            },
        },
    decreases pieces.len(),
{
    if pieces.len() > 0 {
        let before = pieces.drop_last();
        if counts(pieces.last(), pieces.len() == 1) {
            assert(pieces.take(pieces.len() - 1) =~= before);
            assert(pieces.take(pieces.len() as int) =~= pieces);
        } else {
            lemma_last_component(before);
            if let Some(k) = last_component(before) {
                assert(before.take(k) =~= pieces.take(k));
                assert(before.take(k + 1) =~= pieces.take(k + 1));
                assert(before[k] == pieces[k]);
                assert forall|i: int| k < i < pieces.len() implies !counts(
                    #[trigger] pieces[i],
                    false,
                ) by {
                    if i < before.len() {
                        assert(before[i] == pieces[i]);
                    }
                }
            }
        }
    }
}

/// The root and the empty path have no components.
proof fn lemma_bare_paths_have_no_names()
    ensures
        names(Seq::<u8>::empty()).len() == 0,
        names(seq![SEPARATOR]).len() == 0,
{
    let none = Seq::<u8>::empty();
    reveal_with_fuel(components, 3);
    reveal_with_fuel(split, 3);
    assert(split(none) =~= seq![none]);
    assert(seq![none].drop_last() =~= Seq::<Seq<u8>>::empty());
    assert(seq![SEPARATOR].drop_last() =~= none);
    assert(split(seq![SEPARATOR]) =~= seq![none, none]);
    assert(seq![none, none].drop_last() =~= seq![none]);
}

/// The parent of a path has all of its components but the last, and starts
/// where it does; only a path without components has none.
pub proof fn law_parents_drop_the_last_component(p: Seq<u8>)
    ensures
        parent_of(p) is Some <==> names(p).len() > 0,
        parent_of(p) matches Some(q) ==> names(q) == names(p).drop_last() && absolute(q)
            == absolute(p),
{
    let pieces = split(p);
    lemma_last_component(pieces);
    lemma_absolute_pieces(p);
    lemma_pieces_hold_no_separator(p);
    if let Some(k) = last_component(pieces) {
        let above = pieces.take(k);
        lemma_last_component(above);
        assert(names(p).drop_last() =~= components(above));
        match last_component(above) {
            Some(j) => {
                let upper = pieces.take(j + 1);
                assert(above.take(j + 1) =~= upper);
                assert(above[j] == pieces[j]);
                assert forall|i: int| 0 <= i < upper.len() implies !(#[trigger] upper[i]).contains(
                    SEPARATOR,
                ) by {
                    assert(upper[i] == pieces[i]);
                }
                lemma_split_undoes_join(upper);
                lemma_absolute_pieces(join_pieces(upper));
                assert(upper[0] == pieces[0]);
            },
            None => {
                lemma_bare_paths_have_no_names();
                assert(components(above) =~= Seq::<Seq<u8>>::empty());
                if absolute(p) {
                    assert(names(seq![SEPARATOR]) =~= names(p).drop_last());
                } else {
                    assert(names(Seq::<u8>::empty()) =~= names(p).drop_last());
                }
            },
        }
    }
}

/// The file name is the last component, unless that is `.` or `..`.
pub proof fn law_file_names_are_last_components(p: Seq<u8>)
    ensures
        file_name_of(p) is Some <==> names(p).len() > 0 && names(p).last() != seq![46u8]
            && names(p).last() != seq![46u8, 46u8],
        file_name_of(p) matches Some(name) ==> name == names(p).last(),
{
    lemma_last_component(split(p));
}

/// An absolute path is one that begins with a slash.
pub proof fn law_absolute_paths_begin_with_a_slash(p: Seq<u8>)
    ensures
        absolute(seq![47u8] + p),
        p.len() > 0 && p[0] != 47u8 ==> !absolute(p),
        !absolute(Seq::<u8>::empty()),
{
    assert((seq![47u8] + p)[0] == 47u8);
}

/// How components come about: a slash alone adds none, nor does `.` behind one;
/// any other name behind a slash is one more. At the very start any name is
/// one, even `.`.
pub proof fn law_components_come_between_slashes(p: Seq<u8>, name: Seq<u8>)
    requires
        name.len() > 0,
        !name.contains(47u8),
    ensures
        names(Seq::<u8>::empty()).len() == 0,
        names(name) == seq![name],
        names(p + seq![47u8]) == names(p),
        names(p + seq![47u8, 46u8]) == names(p),
        name != seq![46u8] ==> names(p + seq![47u8] + name) == names(p).push(name),
{
    lemma_bare_paths_have_no_names();
    lemma_split_without_separator(name);
    reveal_with_fuel(components, 2);
    assert(seq![name].drop_last() =~= Seq::<Seq<u8>>::empty());
    assert(components(seq![name]) =~= seq![name]);
    let none = Seq::<u8>::empty();
    lemma_split_nonempty(p);
    let pieces = split(p);
    assert(p + seq![47u8] =~= p.push(SEPARATOR) + none);
    lemma_split_behind_separator(p, none);
    assert(pieces.push(none).drop_last() =~= pieces);
    assert(p + seq![47u8, 46u8] =~= p.push(SEPARATOR) + seq![46u8]);
    lemma_split_behind_separator(p, seq![46u8]);
    assert(pieces.push(seq![46u8]).drop_last() =~= pieces);
    assert(p + seq![47u8] + name =~= p.push(SEPARATOR) + name);
    lemma_split_behind_separator(p, name);
    assert(pieces.push(name).drop_last() =~= pieces);
}

/// Components are names: they are not empty and hold no slash, and `.` is one
/// only where a path begins with it.
pub proof fn law_components_are_names(p: Seq<u8>)
    ensures
        forall|i: int|
            0 <= i < names(p).len() ==> (#[trigger] names(p)[i]).len() > 0 && !names(p)[i].contains(
                47u8,
            ) && (names(p)[i] == seq![46u8] ==> i == 0),
{
    lemma_pieces_hold_no_separator(p);
    lemma_components_are_pieces(split(p));
}

/// Components are pieces, of those that are not empty.
proof fn lemma_components_are_pieces(pieces: Seq<Seq<u8>>)
    requires
        forall|i: int| 0 <= i < pieces.len() ==> !(#[trigger] pieces[i]).contains(SEPARATOR),
    ensures
        components(pieces).len() <= pieces.len(),
        forall|i: int|
            0 <= i < components(pieces).len() ==> (#[trigger] components(pieces)[i]).len() > 0
                && !components(pieces)[i].contains(SEPARATOR) && (components(pieces)[i] == seq![DOT]
                ==> i == 0),
    decreases pieces.len(),
{
    if pieces.len() > 0 {
        let before = pieces.drop_last();
        assert forall|i: int| 0 <= i < before.len() implies !(#[trigger] before[i]).contains(
            SEPARATOR,
        ) by {
            assert(before[i] == pieces[i]);
        }
        lemma_components_are_pieces(before);
        assert(!pieces[pieces.len() - 1].contains(SEPARATOR));
        if pieces.len() == 1 {
            assert(before.len() == 0);
        }
    }
}

/// Resolving leaves no `.` and no `..`, and only components that were there.
proof fn lemma_resolved(parts: Seq<Seq<u8>>)
    ensures
        forall|i: int|
            0 <= i < normal(parts).len() ==> !is_cur_dir(#[trigger] normal(parts)[i])
                && !is_parent_dir(normal(parts)[i]) && parts.contains(normal(parts)[i]),
    decreases parts.len(),
{
    if parts.len() > 0 {
        let before = parts.drop_last();
        lemma_resolved(before);
        assert forall|i: int| 0 <= i < normal(parts).len() implies !is_cur_dir(
            #[trigger] normal(parts)[i],
        ) && !is_parent_dir(normal(parts)[i]) && parts.contains(normal(parts)[i]) by {
            if i < normal(before).len() {
                let x = normal(before)[i];
                assert(normal(parts)[i] == x);
                let j = choose|j: int| 0 <= j < before.len() && before[j] == x;
                assert(parts[j] == x);
            } else {
                assert(parts[parts.len() - 1] == normal(parts)[i]);
            }
        }
    }
}

/// Components without `.` and `..` are resolved already.
proof fn lemma_plain_parts_are_resolved(parts: Seq<Seq<u8>>)
    requires
        forall|i: int|
            0 <= i < parts.len() ==> !is_cur_dir(#[trigger] parts[i]) && !is_parent_dir(parts[i]),
    ensures
        normal(parts) == parts,
    decreases parts.len(),
{
    if parts.len() > 0 {
        let before = parts.drop_last();
        assert forall|i: int| 0 <= i < before.len() implies !is_cur_dir(#[trigger] before[i])
            && !is_parent_dir(before[i]) by {
            assert(before[i] == parts[i]);
        }
        lemma_plain_parts_are_resolved(before);
        assert(!is_cur_dir(parts[parts.len() - 1]));
        assert(before.push(parts.last()) =~= parts);
    } else {
        assert(parts =~= Seq::<Seq<u8>>::empty());
    }
}

/// Resolving goes by these rules: `.` adds nothing, `..` takes the component
/// before it away, if there is one, and any other component stays. Once
/// resolved, there is nothing left to resolve.
pub proof fn law_dots_are_resolved(parts: Seq<Seq<u8>>, name: Seq<u8>)
    requires
        name != seq![46u8],
        name != seq![46u8, 46u8],
    ensures
        normal(parts.push(seq![46u8])) == normal(parts),
        normal(parts.push(name)) == normal(parts).push(name),
        normal(parts.push(name).push(seq![46u8, 46u8])) == normal(parts),
        normal(parts).len() == 0 ==> normal(parts.push(seq![46u8, 46u8])) == normal(parts),
        normal(Seq::<Seq<u8>>::empty()).len() == 0,
        normal(normal(parts)) == normal(parts),
        forall|i: int|
            0 <= i < normal(parts).len() ==> #[trigger] normal(parts)[i] != seq![46u8]
                && normal(parts)[i] != seq![46u8, 46u8],
{
    let here = seq![46u8];
    let up = seq![46u8, 46u8];
    assert(here.len() == 1 && up.len() == 2);
    assert(parts.push(here).drop_last() =~= parts);
    assert(parts.push(up).drop_last() =~= parts);
    assert(parts.push(name).drop_last() =~= parts);
    assert(parts.push(name).push(up).drop_last() =~= parts.push(name));
    assert(normal(parts).push(name).drop_last() =~= normal(parts));
    lemma_resolved(parts);
    lemma_plain_parts_are_resolved(normal(parts));
}

/// A piece put in front of others comes first, before a separator.
proof fn lemma_join_in_front(first: Seq<u8>, parts: Seq<Seq<u8>>)
    requires
        parts.len() > 0,
    ensures
        join_pieces(seq![first] + parts) == first.push(SEPARATOR) + join_pieces(parts),
    decreases parts.len(),
{
    let all = seq![first] + parts;
    assert(all.drop_last() =~= seq![first] + parts.drop_last());
    if parts.len() > 1 {
        lemma_join_in_front(first, parts.drop_last());
        assert(join_pieces(all) =~= first.push(SEPARATOR) + join_pieces(parts));
    } else {
        reveal_with_fuel(join_pieces, 2);
        assert(all.drop_last() =~= seq![first]);
        assert(join_pieces(all) =~= first.push(SEPARATOR) + join_pieces(parts));
    }
}

/// Names are their own components, whether or not an empty piece precedes them.
proof fn lemma_names_are_components(parts: Seq<Seq<u8>>)
    requires
        forall|i: int|
            0 <= i < parts.len() ==> (#[trigger] parts[i]).len() > 0 && !is_cur_dir(parts[i]),
    ensures
        components(parts) == parts,
        components(seq![Seq::<u8>::empty()] + parts) == parts,
    decreases parts.len(),
{
    let none = Seq::<u8>::empty();
    if parts.len() == 0 {
        assert(parts =~= Seq::<Seq<u8>>::empty());
        reveal_with_fuel(components, 2);
        assert(seq![none] + parts =~= seq![none]);
        assert(seq![none].drop_last() =~= parts);
    } else {
        let before = parts.drop_last();
        assert forall|i: int| 0 <= i < before.len() implies (#[trigger] before[i]).len() > 0
            && !is_cur_dir(before[i]) by {
            assert(before[i] == parts[i]);
        }
        lemma_names_are_components(before);
        assert((seq![none] + parts).drop_last() =~= seq![none] + before);
        assert(parts[parts.len() - 1].len() > 0);
        assert(before.push(parts.last()) =~= parts);
    }
}

/// A path written from names has these names as its components, and starts at
/// the root if it was to.
pub proof fn law_written_paths_have_their_components(is_absolute: bool, parts: Seq<Seq<u8>>)
    requires
        forall|i: int|
            0 <= i < parts.len() ==> (#[trigger] parts[i]).len() > 0 && parts[i] != seq![46u8]
                && !parts[i].contains(47u8),
    ensures
        names(rendered(is_absolute, parts)) == parts,
        absolute(rendered(is_absolute, parts)) == is_absolute,
{
    let none = Seq::<u8>::empty();
    lemma_bare_paths_have_no_names();
    if parts.len() == 0 {
        assert(join_pieces(parts) =~= none);
        assert(seq![SEPARATOR] + none =~= seq![SEPARATOR]);
        assert(names(rendered(is_absolute, parts)) =~= parts);
    } else {
        lemma_names_are_components(parts);
        if is_absolute {
            let all = seq![none] + parts;
            lemma_join_in_front(none, parts);
            assert(none.push(SEPARATOR) + join_pieces(parts) =~= seq![SEPARATOR] + join_pieces(
                parts,
            ));
            assert forall|i: int| 0 <= i < all.len() implies !(#[trigger] all[i]).contains(
                SEPARATOR,
            ) by {
                if i > 0 {
                    assert(all[i] == parts[i - 1]);
                }
            }
            lemma_split_undoes_join(all);
        } else {
            lemma_split_undoes_join(parts);
            lemma_absolute_pieces(join_pieces(parts));
            assert(parts[0].len() > 0);
        }
    }
}

/// The components from one piece that counts up to another.
proof fn lemma_components_between(pieces: Seq<Seq<u8>>, i: int, m: int)
    requires
        0 <= i < m <= pieces.len(),
        counts(pieces[i], i == 0),
    ensures
        components(pieces.take(m)).len() > components(pieces.take(i)).len(),
        components(pieces.subrange(i, m)) == components(pieces.take(m)).skip(
            components(pieces.take(i)).len() as int,
        ),
    decreases m,
{
    let part = pieces.subrange(i, m);
    let all = pieces.take(m);
    let n = components(pieces.take(i)).len() as int;
    assert(all.drop_last() =~= pieces.take(m - 1));
    assert(all.last() == pieces[m - 1] && part.last() == pieces[m - 1]);
    if m == i + 1 {
        reveal_with_fuel(components, 2);
        assert(part.drop_last() =~= Seq::<Seq<u8>>::empty());
        assert(components(part) =~= seq![pieces[i]]);
        assert(components(all) == components(pieces.take(i)).push(pieces[i]));
        assert(components(all).skip(n) =~= seq![pieces[i]]);
    } else {
        lemma_components_between(pieces, i, m - 1);
        assert(part.drop_last() =~= pieces.subrange(i, m - 1));
        let before = components(pieces.take(m - 1));
        if counts(pieces[m - 1], false) {
            assert(before.push(pieces[m - 1]).skip(n) =~= before.skip(n).push(pieces[m - 1]));
        }
    }
}

/// Component `n` has `n` before it.
proof fn lemma_nth_component(pieces: Seq<Seq<u8>>, n: int)
    requires
        0 <= n,
    ensures
        match nth_component(pieces, n) {
            None => components(pieces).len() <= n,
            Some(i) => 0 <= i < pieces.len() && counts(pieces[i], i == 0) && components(
                pieces.take(i),
            ).len() == n && components(pieces).len() > n,
        },
    decreases pieces.len(),
{
    if pieces.len() > 0 {
        let before = pieces.drop_last();
        lemma_nth_component(before, n);
        assert(pieces.take(pieces.len() - 1) =~= before);
        if let Some(i) = nth_component(before, n) {
            assert(before.take(i) =~= pieces.take(i));
            assert(before[i] == pieces[i]);
        }
    }
}

/// What is left of a path behind its first components has the others, and is
/// relative.
pub proof fn law_tails_have_the_other_components(p: Seq<u8>, n: int)
    requires
        0 <= n <= names(p).len(),
    ensures
        names(tail_from(p, n)) == names(p).skip(n),
        !absolute(tail_from(p, n)),
{
    let pieces = split(p);
    lemma_nth_component(pieces, n);
    lemma_last_component(pieces);
    lemma_pieces_hold_no_separator(p);
    match nth_component(pieces, n) {
        None => {
            lemma_bare_paths_have_no_names();
            assert(names(tail_from(p, n)) =~= names(p).skip(n));
        },
        Some(i) => {
            let k = last_component(pieces).unwrap();
            if i > k {
                assert(counts(pieces[i], false));
            }
            let part = pieces.subrange(i, k + 1);
            lemma_components_between(pieces, i, k + 1);
            assert forall|j: int| 0 <= j < part.len() implies !(#[trigger] part[j]).contains(
                SEPARATOR,
            ) by {
                assert(part[j] == pieces[i + j]);
            }
            lemma_split_undoes_join(part);
            lemma_absolute_pieces(join_pieces(part));
            assert(part[0] == pieces[i]);
        },
    }
}

/// Cutting off what follows the last component changes no component.
pub proof fn law_trimming_keeps_the_components(p: Seq<u8>)
    ensures
        names(without_trailer(p)) == names(p),
        absolute(without_trailer(p)) == absolute(p),
{
    let pieces = split(p);
    lemma_last_component(pieces);
    lemma_pieces_hold_no_separator(p);
    lemma_absolute_pieces(p);
    lemma_bare_paths_have_no_names();
    match last_component(pieces) {
        Some(k) => {
            let upper = pieces.take(k + 1);
            assert forall|i: int| 0 <= i < upper.len() implies !(#[trigger] upper[i]).contains(
                SEPARATOR,
            ) by {
                assert(upper[i] == pieces[i]);
            }
            lemma_split_undoes_join(upper);
            lemma_absolute_pieces(join_pieces(upper));
            assert(upper[0] == pieces[0]);
        },
        None => {
            assert(names(without_trailer(p)) =~= names(p));
        },
    }
}

/// A path below another is the other path and what is left of it without that:
/// their components, one after the other, are its own. A path is below another
/// exactly if its components begin with the other's and both start at the root
/// or neither does; every path is below the empty one.
pub proof fn law_stripping_splits_the_components(p: Seq<u8>, base: Seq<u8>)
    ensures
        stripped(p, base) matches Some(rest) ==> names(p) == names(base) + names(rest),
        stripped(p, base) matches Some(rest) ==> (absolute(rest) ==> !absolute(base) && names(
            base,
        ).len() == 0),
        absolute(p) == absolute(base) && names(base).len() <= names(p).len() && (forall|i: int|
            0 <= i < names(base).len() ==> #[trigger] names(base)[i] == names(p)[i]) ==> stripped(
            p,
            base,
        ) is Some,
        !absolute(base) && names(base).len() == 0 ==> stripped(p, base) is Some,
        stripped(p, base) is Some && (absolute(base) || names(base).len() > 0) ==> absolute(p)
            == absolute(base),
{
    let above = names(base);
    let parts = names(p);
    if !absolute(base) && above.len() == 0 {
        law_trimming_keeps_the_components(p);
        assert(above + parts =~= parts);
    } else {
        if absolute(p) == absolute(base) && above.len() <= parts.len() && (forall|i: int|
            0 <= i < above.len() ==> #[trigger] above[i] == parts[i]) {
            assert(parts.take(above.len() as int) =~= above);
        }
        if begins_with(parts, above) {
            law_tails_have_the_other_components(p, above.len() as int);
            assert(above + parts.skip(above.len() as int) =~= parts);
        }
    }
}

/// Two paths are the same exactly if they have the same components and start at
/// the same place: doubled and trailing slashes make no difference.
pub proof fn law_same_paths_have_the_same_components(a: Seq<u8>, b: Seq<u8>)
    ensures
        same_path(a, b) <==> names(a) == names(b) && absolute(a) == absolute(b),
        a.len() > 0 ==> same_path(a, a + seq![47u8]),
        same_path(a, b) ==> parent_of(a) is Some == parent_of(b) is Some && file_name_of(a)
            == file_name_of(b),
{
    law_components_come_between_slashes(a, seq![65u8]);
    if a.len() > 0 {
        assert((a + seq![47u8])[0] == a[0]);
    }
    law_parents_drop_the_last_component(a);
    law_parents_drop_the_last_component(b);
    law_file_names_are_last_components(a);
    law_file_names_are_last_components(b);
}

/// A relative path is put behind its base with one slash between them, which
/// the base may bring itself; an absolute path stands on its own.
pub proof fn law_joining_puts_one_slash_between(base: Seq<u8>, tail: Seq<u8>)
    ensures
        tail.len() > 0 && tail[0] == 47u8 ==> joined(base, tail) == tail,
        tail.len() == 0 || tail[0] != 47u8 ==> {
            &&& base.len() == 0 ==> joined(base, tail) == tail
            &&& base.len() > 0 && base.last() == 47u8 ==> joined(base, tail) == base + tail
            &&& base.len() > 0 && base.last() != 47u8 ==> joined(base, tail) == base + seq![47u8]
                + tail
        },
{
    assert(Seq::<u8>::empty() + tail =~= tail);
    assert(base.len() == 0 ==> base =~= Seq::<u8>::empty());
    assert(base.push(SEPARATOR) + tail =~= base + seq![47u8] + tail);
}

/// An entry of a directory has its name as file name, the directory as parent,
/// and lies below it under its name.
pub proof fn law_entries_lie_in_their_directory(dir: Seq<u8>, name: Seq<u8>)
    requires
        name.len() > 0,
        !name.contains(47u8),
        name != seq![46u8],
        name != seq![46u8, 46u8],
    ensures
        names(joined(dir, name)) == names(dir).push(name),
        absolute(joined(dir, name)) == absolute(dir),
        file_name_of(joined(dir, name)) == Some(name),
        parent_of(joined(dir, name)) matches Some(parent) && same_path(parent, dir),
        stripped(joined(dir, name), dir) == Some(name),
{
    let p = joined(dir, name);
    lemma_names_of_entry(dir, name);
    law_file_names_are_last_components(p);
    law_parents_drop_the_last_component(p);
    assert(names(dir).push(name).drop_last() =~= names(dir));
    lemma_entry_is_last_piece(dir, name);
    let pieces = split(p);
    let last = pieces.len() - 1;
    assert(pieces[last] == name);
    assert(last_component(pieces) == Some(last));
    let n = names(dir).len() as int;
    if !absolute(dir) && n == 0 {
        lemma_absolute_pieces(dir);
        lemma_nameless_relative_path_is_empty(dir);
        assert(p =~= name);
        assert(pieces.take(last + 1) =~= pieces);
        lemma_join_undoes_split(p);
    } else {
        assert(names(p).take(n) =~= names(dir));
        assert(components(pieces) == components(pieces.drop_last()).push(name));
        assert(nth_component(pieces, n) == Some(last));
        assert(pieces.subrange(last, last + 1) =~= seq![name]);
    }
}

/// The name of an entry is the last piece of its path.
proof fn lemma_entry_is_last_piece(dir: Seq<u8>, name: Seq<u8>)
    requires
        is_plain_name(name),
    ensures
        split(joined(dir, name)).len() > 0,
        split(joined(dir, name)).last() == name,
{
    assert(!absolute(name)) by {
        if absolute(name) {
            assert(name[0] == SEPARATOR);
        }
    }
    lemma_split_nonempty(joined(dir, name));
    if dir.len() == 0 {
        assert(joined(dir, name) =~= name);
        lemma_split_without_separator(name);
    } else if dir.last() == SEPARATOR {
        assert(dir.drop_last().push(SEPARATOR) =~= dir);
        lemma_split_behind_separator(dir.drop_last(), name);
    } else {
        lemma_split_behind_separator(dir, name);
    }
}

/// A relative path without components is empty.
pub proof fn lemma_nameless_relative_path_is_empty(p: Seq<u8>)
    requires
        !absolute(p),
        names(p).len() == 0,
    ensures
        p.len() == 0,
{
    if p.len() > 0 {
        let pieces = split(p);
        lemma_split_nonempty(p);
        lemma_absolute_pieces(p);
        lemma_join_undoes_split(p);
        assert(pieces[0].len() > 0);
        lemma_components_between(pieces, 0, pieces.len() as int);
        assert(pieces.take(pieces.len() as int) =~= pieces);
    }
}

/// The last dot has no dot behind it.
proof fn lemma_no_dot_behind_the_last(name: Seq<u8>)
    ensures
        match last_dot(name) {
            Some(i) => 0 <= i < name.len() && name[i] == DOT && forall|j: int|
                i < j < name.len() ==> #[trigger] name[j] != DOT,
            None => forall|j: int| 0 <= j < name.len() ==> #[trigger] name[j] != DOT,
        },
    decreases name.len(),
{
    if name.len() > 0 {
        let before = name.drop_last();
        lemma_no_dot_behind_the_last(before);
        assert forall|j: int| 0 <= j < before.len() implies before[j] == #[trigger] name[j] by {}
    }
}

/// The extension of a file is what follows the last dot of its name. A name
/// without a dot has none, nor has one whose only dot is its first byte.
pub proof fn law_extensions_follow_the_last_dot(p: Seq<u8>, stem: Seq<u8>, ext: Seq<u8>)
    requires
        file_name_of(p) == Some(stem + ext),
    ensures
        stem.len() > 1 && stem.last() == 46u8 && !ext.contains(46u8) ==> extension_of(p) == Some(
            ext,
        ),
        stem.len() == 1 && stem[0] == 46u8 && !ext.contains(46u8) ==> extension_of(p) is None,
        stem.len() == 0 && !ext.contains(46u8) ==> extension_of(p) is None,
{
    let name = stem + ext;
    lemma_no_dot_behind_the_last(name);
    if !ext.contains(46u8) {
        assert forall|j: int| stem.len() <= j < name.len() implies #[trigger] name[j] != DOT by {
            assert(name[j] == ext[j - stem.len()]);
        }
        if stem.len() > 0 && stem.last() == 46u8 {
            assert(name[stem.len() - 1] == DOT);
            assert(last_dot(name) == Some(stem.len() - 1));
            assert(name.subrange(stem.len() as int, name.len() as int) =~= ext);
        }
    }
}

/// A path without a file name has no extension.
pub proof fn law_no_extension_without_a_name(p: Seq<u8>)
    requires
        file_name_of(p) is None,
    ensures
        extension_of(p) is None,
{
}

/// Components begin with others exactly if these, with more behind them, are
/// the components.
pub proof fn law_prefixes_are_continued(prefix: Seq<Seq<u8>>, more: Seq<Seq<u8>>, parts: Seq<
    Seq<u8>,
>)
    ensures
        begins_with(prefix + more, prefix),
        begins_with(parts, prefix) ==> parts == prefix + parts.skip(prefix.len() as int),
{
    assert((prefix + more).take(prefix.len() as int) =~= prefix);
    if begins_with(parts, prefix) {
        assert(parts =~= prefix + parts.skip(prefix.len() as int));
    }
}

/// A relative path behind a separator brings its own pieces.
proof fn lemma_split_behind(p: Seq<u8>, tail: Seq<u8>)
    ensures
        split(p.push(SEPARATOR) + tail) == split(p) + split(tail),
    decreases tail.len(),
{
    let whole = p.push(SEPARATOR) + tail;
    let none = Seq::<u8>::empty();
    if tail.len() == 0 {
        assert(whole =~= p.push(SEPARATOR) + none);
        lemma_split_behind_separator(p, none);
        assert(tail =~= none);
        assert(split(tail) =~= seq![none]);
        assert(split(p).push(none) =~= split(p) + seq![none]);
    } else {
        let shorter = tail.drop_last();
        lemma_split_behind(p, shorter);
        lemma_split_nonempty(shorter);
        assert(whole.drop_last() =~= p.push(SEPARATOR) + shorter);
        assert(whole.last() == tail.last());
        let before = split(p) + split(shorter);
        assert(before.last() == split(shorter).last());
        assert(before.drop_last() =~= split(p) + split(shorter).drop_last());
        assert(split(whole) =~= split(p) + split(tail));
    }
}

/// The components of pieces behind others, unless they begin with `.`.
proof fn lemma_components_behind(a: Seq<Seq<u8>>, b: Seq<Seq<u8>>)
    requires
        a.len() > 0,
        b.len() > 0 ==> !is_cur_dir(b[0]),
    ensures
        components(a + b) == components(a) + components(b),
    decreases b.len(),
{
    if b.len() == 0 {
        assert(a + b =~= a);
        assert(components(a) + components(b) =~= components(a));
    } else {
        let shorter = b.drop_last();
        if shorter.len() > 0 {
            assert(shorter[0] == b[0]);
        }
        lemma_components_behind(a, shorter);
        assert((a + b).drop_last() =~= a + shorter);
        assert((a + b).last() == b.last());
        if b.len() == 1 {
            assert(b.last() == b[0]);
        }
        assert(components(a + b) =~= components(a) + components(b));
    }
}

/// A path that is taken relative to another has the components of both, one
/// after the other; a `.` that it begins with is dropped.
pub proof fn law_joining_adds_components(base: Seq<u8>, tail: Seq<u8>)
    requires
        !absolute(tail),
        names(tail).len() == 0 || names(tail)[0] != seq![46u8],
    ensures
        names(joined(base, tail)) == names(base) + names(tail),
        base.len() > 0 ==> absolute(joined(base, tail)) == absolute(base),
{
    let pieces = split(tail);
    let none = Seq::<u8>::empty();
    lemma_split_nonempty(tail);
    lemma_bare_paths_have_no_names();
    assert(!is_cur_dir(pieces[0])) by {
        if is_cur_dir(pieces[0]) {
            assert(counts(pieces[0], true));
            lemma_components_between(pieces, 0, pieces.len() as int);
            assert(pieces.take(pieces.len() as int) =~= pieces);
            assert(pieces.take(0) =~= Seq::<Seq<u8>>::empty());
            lemma_components_start(pieces);
        }
    }
    if base.len() == 0 {
        assert(base =~= none);
        assert(joined(base, tail) =~= tail);
        assert(names(base) + names(tail) =~= names(tail));
    } else if base.last() == SEPARATOR {
        let above = base.drop_last();
        assert(above.push(SEPARATOR) =~= base);
        lemma_split_nonempty(above);
        lemma_split_behind(above, tail);
        lemma_components_behind(split(above), pieces);
        assert(split(base) == split(above).push(none));
        assert(split(above).push(none).drop_last() =~= split(above));
        assert(components(split(above).push(none)) == components(split(above)));
        assert(joined(base, tail)[0] == base[0]);
    } else {
        lemma_split_nonempty(base);
        lemma_split_behind(base, tail);
        lemma_components_behind(split(base), pieces);
        assert(joined(base, tail)[0] == base[0]);
    }
}

/// A first piece that counts is the first component.
proof fn lemma_components_start(pieces: Seq<Seq<u8>>)
    requires
        pieces.len() > 0,
        counts(pieces[0], true),
    ensures
        components(pieces).len() > 0,
        components(pieces)[0] == pieces[0],
    decreases pieces.len(),
{
    if pieces.len() > 1 {
        assert(pieces.drop_last()[0] == pieces[0]);
        lemma_components_start(pieces.drop_last());
    } else {
        reveal_with_fuel(components, 2);
        assert(pieces.drop_last() =~= Seq::<Seq<u8>>::empty());
    }
}

/// Bytes are seen as they are, one by one.
pub proof fn law_bytes_are_seen_as_they_are(file: FilePath, pieces: Seq<Vec<u8>>, i: int)
    requires
        0 <= i < pieces.len(),
    ensures
        file@ == file.bytes@,
        pieces_view(pieces).len() == pieces.len(),
        pieces_view(pieces)[i] == pieces[i]@,
{
}

} // verus!
