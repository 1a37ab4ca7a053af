//! Paths of key files, seen as the sequence of components that identifies them.

use vstd::prelude::*;
use vstd::string::*;

verus! {

/// The extension of the files that hold QKD keys.
pub const QKD_KEY_FILE_EXTENSION: &'static str = "cor";

/// One component of a path, as the platform splits it.
#[derive(Debug)]
pub enum PathComponent {
    /// A drive or share prefix, by its kind. Only Windows paths have one.
    Prefix(String),
    /// The root directory.
    RootDir,
    /// A leading `.`.
    CurDir,
    /// A `..`.
    ParentDir,
    /// A file or directory name.
    Normal(String),
}

/// The mathematical value of a `PathComponent`.
pub enum Component {
    Prefix(Seq<char>),
    RootDir,
    CurDir,
    ParentDir,
    Normal(Seq<char>),
}

impl View for PathComponent {
    type V = Component;

    open spec fn view(&self) -> Component {
        match self {
            PathComponent::Prefix(kind) => Component::Prefix(kind@),
            PathComponent::RootDir => Component::RootDir,
            PathComponent::CurDir => Component::CurDir,
            PathComponent::ParentDir => Component::ParentDir,
            PathComponent::Normal(name) => Component::Normal(name@),
        }
    }
}

/// The pieces of a text between its `/` separators, empty pieces kept.
pub open spec fn pieces(text: Seq<char>) -> Seq<Seq<char>>
    decreases text.len(),
{
    if text.len() == 0 {
        seq![Seq::empty()]
    } else {
        let before = pieces(text.drop_last());
        if text.last() == '/' {
            before.push(Seq::empty())
        } else {
            before.drop_last().push(before.last().push(text.last()))
        }
    }
}

/// The component that a piece stands for: empty pieces stand for none, and `.` only counts at
/// the beginning of a relative path, where it is the first piece.
pub open spec fn piece_component(piece: Seq<char>, first: bool) -> Option<Component> {
    if piece.len() == 0 {
        None
    } else if piece == seq!['.'] {
        if first {
            Some(Component::CurDir)
        } else {
            None
        }
    } else if piece == seq!['.', '.'] {
        Some(Component::ParentDir)
    } else {
        Some(Component::Normal(piece))
    }
}

/// The components that pieces stand for, in order.
pub open spec fn piece_components(pieces: Seq<Seq<char>>) -> Seq<Component>
    decreases pieces.len(),
{
    if pieces.len() == 0 {
        Seq::empty()
    } else {
        let before = piece_components(pieces.drop_last());
        match piece_component(pieces.last(), pieces.len() == 1) {
            Some(component) => before.push(component),
            None => before,
        }
    }
}

/// The components of a path text whose separator is `/`.
pub open spec fn components(text: Seq<char>) -> Seq<Component> {
    let root = if text.len() > 0 && text[0] == '/' {
        seq![Component::RootDir]
    } else {
        Seq::empty()
    };
    root + piece_components(pieces(text))
}

/// A text with every `\` taken for a `/`.
pub open spec fn slashed(text: Seq<char>) -> Seq<char> {
    text.map_values(
        |c: char|
            if c == '\\' {
                '/'
            } else {
                c
            },
    )
}

/// Whether a text begins as a drive prefix does: its second character is a colon.
pub open spec fn may_have_drive(text: Seq<char>) -> bool {
    text.len() >= 2 && text[1] == ':'
}

/// Whether a text begins with two separators, each of either kind, as all prefixes but drives do.
pub open spec fn may_have_share(text: Seq<char>) -> bool {
    &&& text.len() >= 2
    &&& text[0] == '/' || text[0] == '\\'
    &&& text[1] == '/' || text[1] == '\\'
}

/// Whether some platform may find a prefix in a text.
pub open spec fn may_have_prefix(text: Seq<char>) -> bool {
    may_have_drive(text) || may_have_share(text)
}

/// Whether what follows a drive is the text after it, split at both separators. A `.` right
/// after the drive may count or not.
pub open spec fn follows_drive(rest: Seq<Component>, text: Seq<char>) -> bool {
    let split = components(slashed(text.skip(2)));
    rest == split || (split.len() > 0 && split[0] == Component::CurDir && rest == split.skip(1))
}

/// Whether a text that begins with two separators goes on after any share or device prefix that
/// is written with `/`: such a prefix takes up at most two names after the root. A `?` may begin
/// a longer one.
pub open spec fn outlasts_share(text: Seq<char>) -> bool {
    components(text).len() > 3 && text[2] != '?'
}

/// Whether a path is a text split at its separators: at `/` alone, or at `\` as well. Where a
/// prefix is possible, the path may also begin with one. After a drive come the components of
/// the rest of the text. A prefix that begins with two separators may take up the first names of
/// the text, and so leave no file name, but changes no file name, unless the text has a `\`.
pub open spec fn is_split_of(path: Seq<Component>, text: Seq<char>) -> bool {
    ||| path == components(text)
    ||| path == components(slashed(text))
    ||| {
        &&& may_have_prefix(text)
        &&& path.len() > 0
        &&& path[0] is Prefix
        &&& may_have_drive(text) ==> follows_drive(path.skip(1), text)
        &&& may_have_share(text) && !text.contains('\\') ==> {
            ||| file_name(path) == file_name(components(text))
            ||| file_name(path) is None && !outlasts_share(text)
        }
    }
}

/// A text without `\` is split in one way, unless its second character is a colon or it begins
/// with two separators.
pub proof fn law_split_without_backslash(path: Seq<Component>, text: Seq<char>)
    requires
        is_split_of(path, text),
        text.len() >= 2 ==> text[1] != ':' && !(text[0] == '/' && text[1] == '/'),
        !text.contains('\\'),
    ensures
        path == components(text),
{
    lemma_slashed_is_same(text);
    assert(text.len() >= 2 ==> text.contains(text[0]) && text.contains(text[1]));
}

/// A text without `\` has none to take for a `/`.
pub(crate) proof fn lemma_slashed_is_same(text: Seq<char>)
    requires
        !text.contains('\\'),
    ensures
        slashed(text) == text,
{
    assert forall|i: int| 0 <= i < text.len() implies slashed(text)[i] == text[i] by {
        assert(text.contains(text[i]));
    }
    assert(slashed(text) =~= text);
}

/// Whether a text has a part at some place.
pub open spec fn has_part(text: Seq<char>, part: Seq<char>) -> bool {
    exists|at: int|
        0 <= at <= text.len() - part.len() && #[trigger] text.subrange(at, at + part.len()) == part
}

/// Whether every name in a path is a part of a text.
pub open spec fn names_are_parts(path: Seq<Component>, text: Seq<char>) -> bool {
    forall|i: int|
        0 <= i < path.len() ==> (#[trigger] path[i] matches Component::Normal(name) ==> has_part(
            text,
            name,
        ))
}

/// The last component of a path, if it is a name.
pub open spec fn file_name(path: Seq<Component>) -> Option<Seq<char>> {
    if path.len() > 0 {
        match path.last() {
            Component::Normal(name) => Some(name),
            _ => None,
        }
    } else {
        None
    }
}

/// Whether position `i` of a name holds its last dot.
pub open spec fn is_last_dot(name: Seq<char>, i: int) -> bool {
    &&& 0 <= i < name.len()
    &&& name[i] == '.'
    &&& forall|j: int| i < j < name.len() ==> name[j] != '.'
}

/// What follows the last dot of a file name, unless there is no dot or the only one comes first.
pub open spec fn name_extension(name: Seq<char>) -> Option<Seq<char>> {
    if exists|i: int| i > 0 && is_last_dot(name, i) {
        let dot = choose|i: int| i > 0 && is_last_dot(name, i);
        Some(name.skip(dot + 1))
    } else {
        None
    }
}

/// The extension of the file name of a path.
pub open spec fn extension(path: Seq<Component>) -> Option<Seq<char>> {
    match file_name(path) {
        Some(name) => name_extension(name),
        None => None,
    }
}

/// Whether a path names a key file: its extension is the one of key files.
pub open spec fn is_key_file(path: Seq<Component>) -> bool {
    extension(path) == Some(QKD_KEY_FILE_EXTENSION@)
}

/// The components of a path text, by `std::path::Path::components`.
///
/// Repeated and trailing separators are dropped, and so is every `.` but a leading one. Unix
/// separates by `/` and has no prefixes. Windows separates by `\` as well, and may find a prefix
/// in a text whose second character is a colon (a drive) or that begins with two separators (a
/// share, a device or a verbatim path). A share or device prefix written with `/` takes up at
/// most two names of the text and leaves the others, so the file name stays as it is, or there
/// is none if the text has no more names. How else a text goes on after one of the latter
/// prefixes is left unsaid, but for the names being parts of the text: a verbatim prefix, which
/// is written with `\`, changes how the rest is split. How a prefix is written is left unsaid
/// too: it is the debug form of its kind, so that drives that differ in case only are the same.
#[verifier::external_body]
fn path_components(text: &str) -> (parts: Vec<PathComponent>)
    ensures
        is_split_of(parts@.map_values(|part: PathComponent| part@), text@),
        names_are_parts(parts@.map_values(|part: PathComponent| part@), text@),
{
    std::path::Path::new(text).components().map(|part| match part {
        std::path::Component::Prefix(p) => PathComponent::Prefix(format!("{:?}", p.kind())),
        std::path::Component::RootDir => PathComponent::RootDir,
        std::path::Component::CurDir => PathComponent::CurDir,
        std::path::Component::ParentDir => PathComponent::ParentDir,
        std::path::Component::Normal(n) => PathComponent::Normal(n.to_string_lossy().into_owned()),
    }).collect()
}

impl PathComponent {
    /// A copy of the component.
    fn copy(&self) -> (other: PathComponent)
        ensures
            other@ == self@,
    {
        match self {
            PathComponent::Prefix(kind) => PathComponent::Prefix(kind.clone()),
            PathComponent::RootDir => PathComponent::RootDir,
            PathComponent::CurDir => PathComponent::CurDir,
            PathComponent::ParentDir => PathComponent::ParentDir,
            PathComponent::Normal(name) => PathComponent::Normal(name.clone()),
        }
    }

    /// Whether two components are the same.
    fn same(&self, other: &PathComponent) -> (same: bool)
        ensures
            same == (self@ == other@),
    {
        proof {
            law_component_identity(*self, *other);
        }
        match (self, other) {
            (PathComponent::Prefix(a), PathComponent::Prefix(b)) => *a == *b,
            (PathComponent::RootDir, PathComponent::RootDir) => true,
            (PathComponent::CurDir, PathComponent::CurDir) => true,
            (PathComponent::ParentDir, PathComponent::ParentDir) => true,
            (PathComponent::Normal(a), PathComponent::Normal(b)) => *a == *b,
            _ => false,
        }
    }
}

/// The path of a file that may hold keys.
///
/// Two texts that differ only in how a path is spelled, such as `a//b` and `a/b`, are the same
/// path: its value is its sequence of components.
#[derive(Debug)]
pub struct KeyPath {
    text: String,
    parts: Vec<PathComponent>,
}

impl View for KeyPath {
    type V = Seq<Component>;

    closed spec fn view(&self) -> Seq<Component> {
        self.parts@.map_values(|part: PathComponent| part@)
    }
}

impl KeyPath {
    /// The text that the path was made of.
    pub closed spec fn spelling(&self) -> Seq<char> {
        self.text@
    }

    /// The path that a text spells.
    pub fn new(text: &str) -> (path: KeyPath)
        ensures
            path.spelling() == text@,
            is_split_of(path@, text@),
            !may_have_prefix(text@) && !text@.contains('\\') ==> path@ == components(text@),
            names_are_parts(path@, text@),
    {
        let path = KeyPath { text: text.to_owned(), parts: path_components(text) };
        proof {
            if !may_have_prefix(text@) && !text@.contains('\\') {
                law_split_without_backslash(path@, text@);
            }
        }
        path
    }

    /// The text that the path was made of.
    pub fn as_str(&self) -> (text: &str)
        ensures
            text@ == self.spelling(),
    {
        self.text.as_str()
    }

    /// A copy of the path.
    pub fn copy(&self) -> (other: KeyPath)
        ensures
            other@ == self@,
            other.spelling() == self.spelling(),
    {
        let mut parts: Vec<PathComponent> = Vec::new();
        for i in 0..self.parts.len()
            invariant
                parts@.len() == i,
                forall|j: int| 0 <= j < i ==> (#[trigger] parts@[j])@ == self.parts@[j]@,
        {
            parts.push(self.parts[i].copy());
        }
        let other = KeyPath { text: self.text.clone(), parts };
        assert(other@ =~= self@);
        other
    }

    /// Whether two paths are the same.
    pub fn same(&self, other: &KeyPath) -> (same: bool)
        ensures
            same == (self@ == other@),
    {
        proof {
            law_path_identity(*self, *other);
        }
        if self.parts.len() != other.parts.len() {
            return false;
        }
        for i in 0..self.parts.len()
            invariant
                self.parts@.len() == other.parts@.len(),
                forall|j: int| 0 <= j < i ==> (#[trigger] self.parts@[j])@ == other.parts@[j]@,
        {
            if !self.parts[i].same(&other.parts[i]) {
                proof {
                    law_path_identity(*self, *other);
                }
                return false;
            }
        }
        true
    }

    /// The extension of the file name: what follows its last dot, unless it has no dot or its
    /// only dot comes first.
    pub fn extension(&self) -> (ext: Option<&str>)
        ensures
            match ext {
                Some(ext) => extension(self@) == Some(ext@),
                None => extension(self@) is None,
            },
    {
        if self.parts.len() == 0 {
            return None;
        }
        match &self.parts[self.parts.len() - 1] {
            PathComponent::Normal(name) => {
                assert(file_name(self@) == Some(name@));
                name_extension_of(name.as_str())
            },
            _ => None,
        }
    }

    /// Whether the path names a key file.
    pub fn is_key_file(&self) -> (yes: bool)
        ensures
            yes == is_key_file(self@),
    {
        match self.extension() {
            Some(ext) => ext.to_owned() == QKD_KEY_FILE_EXTENSION.to_owned(),
            None => false,
        }
    }
}

/// The extension of a file name.
fn name_extension_of(name: &str) -> (ext: Option<&str>)
    ensures
        match ext {
            Some(ext) => name_extension(name@) == Some(ext@),
            None => name_extension(name@) is None,
        },
{
    let len = name.unicode_len();
    let mut dot: usize = len;
    while dot > 0
        invariant
            dot <= len == name@.len(),
            forall|j: int| dot <= j < len ==> name@[j] != '.',
        decreases dot,
    {
        dot = dot - 1;
        if name.get_char(dot) == '.' {
            if dot == 0 {
                return None;
            }
            assert(is_last_dot(name@, dot as int));
            let ext = name.substring_char(dot + 1, len);
            assert(ext@ =~= name@.skip(dot + 1));
            return Some(ext);
        }
    }
    None
}

/// A path names a key file exactly when its last component is a name that ends in `.cor`, with
/// something before it.
pub proof fn law_key_file_ends_in_cor(path: Seq<Component>)
    ensures
        is_key_file(path) <==> {
            &&& path.len() > 0
            &&& path[path.len() - 1] matches Component::Normal(name)
            &&& name.len() > 4
            &&& name[name.len() - 4] == '.'
            &&& name[name.len() - 3] == 'c'
            &&& name[name.len() - 2] == 'o'
            &&& name[name.len() - 1] == 'r'
        },
{
    reveal_strlit("cor");
    law_key_file_name(path);
    if path.len() > 0 {
        if let Component::Normal(name) = path[path.len() - 1] {
            if is_key_file(path) {
                let stem = choose|stem: Seq<char>|
                    stem.len() > 0 && name == #[trigger] (stem + seq!['.'])
                        + QKD_KEY_FILE_EXTENSION@;
                assert(name.len() == stem.len() + 4);
            }
            if name.len() > 4 && name.skip(name.len() - 4) =~= seq!['.', 'c', 'o', 'r'] {
                let stem = name.take(name.len() - 4);
                assert(name =~= (stem + seq!['.']) + QKD_KEY_FILE_EXTENSION@);
            }
        }
    }
}

/// A path has an extension exactly when its last component is a name that is something that is
/// not empty, followed by a dot and the extension, which has no dot itself.
pub proof fn law_extension_follows_last_dot(path: Seq<Component>, ext: Seq<char>)
    ensures
        extension(path) == Some(ext) <==> {
            &&& path.len() > 0
            &&& path[path.len() - 1] matches Component::Normal(name)
            &&& !ext.contains('.')
            &&& exists|stem: Seq<char>|
                stem.len() > 0 && name == #[trigger] (stem + seq!['.']) + ext
        },
{
    if path.len() > 0 {
        if let Component::Normal(name) = path[path.len() - 1] {
            if extension(path) == Some(ext) {
                let dot = choose|i: int| i > 0 && is_last_dot(name, i);
                assert(exists|i: int| i > 0 && is_last_dot(name, i));
                assert(!ext.contains('.')) by {
                    if ext.contains('.') {
                        let j = choose|j: int| 0 <= j < ext.len() && ext[j] == '.';
                        assert(name[dot + 1 + j] == '.');
                    }
                }
                assert(name =~= (name.take(dot) + seq!['.']) + ext);
            }
            if !ext.contains('.') && exists|stem: Seq<char>|
                stem.len() > 0 && name == #[trigger] (stem + seq!['.']) + ext {
                let stem = choose|stem: Seq<char>|
                    stem.len() > 0 && name == #[trigger] (stem + seq!['.']) + ext;
                let dot = stem.len() as int;
                assert forall|j: int| dot < j < name.len() implies name[j] != '.' by {
                    assert(ext.contains(ext[j - dot - 1]));
                }
                assert(is_last_dot(name, dot));
                assert(name.skip(dot + 1) =~= ext);
            }
        }
    }
}

/// Two components are the same exactly when they are of one kind and hold the same text.
pub proof fn law_component_identity(a: PathComponent, b: PathComponent)
    ensures
        a@ == b@ <==> match (a, b) {
            (PathComponent::Prefix(x), PathComponent::Prefix(y)) => x@ == y@,
            (PathComponent::RootDir, PathComponent::RootDir) => true,
            (PathComponent::CurDir, PathComponent::CurDir) => true,
            (PathComponent::ParentDir, PathComponent::ParentDir) => true,
            (PathComponent::Normal(x), PathComponent::Normal(y)) => x@ == y@,
            _ => false,
        },
        a is Normal ==> a@ == Component::Normal(a->Normal_0@),
        a is ParentDir ==> a@ == Component::ParentDir,
        a is CurDir ==> a@ == Component::CurDir,
        a is RootDir ==> a@ == Component::RootDir,
{
}

/// Two paths are the same exactly when they have the same components in the same order.
proof fn law_path_identity(a: KeyPath, b: KeyPath)
    ensures
        a@ == b@ <==> {
            &&& a.parts@.len() == b.parts@.len()
            &&& forall|i: int|
                0 <= i < a.parts@.len() ==> (#[trigger] a.parts@[i])@ == b.parts@[i]@
        },
{
    if a@ == b@ {
        assert(a@.len() == a.parts@.len());
        assert(b@.len() == b.parts@.len());
        assert forall|i: int| 0 <= i < a.parts@.len() implies (#[trigger] a.parts@[i])@
            == b.parts@[i]@ by {
            assert(a@[i] == a.parts@[i]@);
            assert(b@[i] == b.parts@[i]@);
        }
    } else if a.parts@.len() == b.parts@.len() && forall|i: int|
        0 <= i < a.parts@.len() ==> (#[trigger] a.parts@[i])@ == b.parts@[i]@ {
        assert(a@ =~= b@);
    }
}

/// A path names a key file exactly when its file name is something that is not empty, followed
/// by a dot and the extension of key files.
pub proof fn law_key_file_name(path: Seq<Component>)
    ensures
        is_key_file(path) <==> {
            &&& file_name(path) matches Some(name)
            &&& exists|stem: Seq<char>|
                stem.len() > 0 && name == #[trigger] (stem + seq!['.']) + QKD_KEY_FILE_EXTENSION@
        },
{
    let ext = QKD_KEY_FILE_EXTENSION@;
    reveal_strlit("cor");
    assert(forall|j: int| 0 <= j < ext.len() ==> ext[j] != '.');
    if let Some(name) = file_name(path) {
        if is_key_file(path) {
            let dot = choose|i: int| i > 0 && is_last_dot(name, i);
            assert(exists|i: int| i > 0 && is_last_dot(name, i));
            let stem = name.take(dot);
            assert(name =~= (stem + seq!['.']) + ext);
        }
        if exists|stem: Seq<char>| stem.len() > 0 && name == #[trigger] (stem + seq!['.']) + ext {
            let stem = choose|stem: Seq<char>|
                stem.len() > 0 && name == #[trigger] (stem + seq!['.']) + ext;
            let dot = stem.len() as int;
            assert(is_last_dot(name, dot));
            assert(name.skip(dot + 1) =~= ext);
        }
    }
}

/// Neither a prefix nor a `.` decides whether a path names a key file.
pub(crate) proof fn lemma_no_name_first(path: Seq<Component>)
    ensures
        path.len() > 0 && path[0] !is Normal ==> is_key_file(path) == is_key_file(path.skip(1)),
{
    if path.len() > 1 {
        assert(path.skip(1).last() == path.last());
    }
}

/// The text of a key file's path has a dot followed by the extension of key files.
pub proof fn law_key_file_text(path: Seq<Component>, text: Seq<char>)
    requires
        names_are_parts(path, text),
        is_key_file(path),
    ensures
        has_part(text, seq!['.'] + QKD_KEY_FILE_EXTENSION@),
{
    let ext = QKD_KEY_FILE_EXTENSION@;
    law_key_file_name(path);
    let name = file_name(path)->0;
    assert(path[path.len() - 1] == Component::Normal(name));
    let stem = choose|stem: Seq<char>|
        stem.len() > 0 && name == #[trigger] (stem + seq!['.']) + ext;
    let at = choose|at: int|
        0 <= at <= text.len() - name.len() && #[trigger] text.subrange(at, at + name.len()) == name;
    let part = seq!['.'] + ext;
    let from = at + stem.len();
    assert(text.subrange(from, from + part.len()) =~= part) by {
        assert forall|j: int| 0 <= j < part.len() implies text[from + j] == part[j] by {
            assert(text.subrange(at, at + name.len())[stem.len() + j] == part[j]);
        }
    }
}

/// A text that ends in a separator and a name is split into the text before it and the name.
proof fn lemma_pieces_of_joined(dir: Seq<char>, name: Seq<char>)
    requires
        !name.contains('/'),
    ensures
        pieces((dir + seq!['/']) + name) == pieces(dir).push(name),
    decreases name.len(),
{
    let text = (dir + seq!['/']) + name;
    if name.len() == 0 {
        assert(text =~= dir.push('/'));
        assert(text.drop_last() =~= dir);
        assert(name =~= Seq::<char>::empty());
    } else {
        let before = name.drop_last();
        assert(name.contains(name.last()));
        assert(!before.contains('/')) by {
            if before.contains('/') {
                let i = choose|i: int| 0 <= i < before.len() && before[i] == '/';
                assert(name[i] == '/');
            }
        }
        lemma_pieces_of_joined(dir, before);
        assert(text.drop_last() =~= (dir + seq!['/']) + before);
        assert(before.push(name.last()) =~= name);
        assert(pieces(dir).push(before).drop_last() =~= pieces(dir));
    }
}

/// A name is its own single piece.
proof fn lemma_pieces_of_name(name: Seq<char>)
    requires
        !name.contains('/'),
    ensures
        pieces(name) == seq![name],
    decreases name.len(),
{
    if name.len() > 0 {
        let before = name.drop_last();
        assert(name.contains(name.last()));
        assert(!before.contains('/')) by {
            if before.contains('/') {
                let i = choose|i: int| 0 <= i < before.len() && before[i] == '/';
                assert(name[i] == '/');
            }
        }
        lemma_pieces_of_name(before);
        assert(before.push(name.last()) =~= name);
        assert(seq![before].drop_last().push(name) =~= seq![name]);
    } else {
        assert(name =~= Seq::<char>::empty());
    }
}

/// Only the last component decides whether a path names a key file: a name in a directory is a
/// key file exactly if the name alone is. Dots in the names of directories do not count. If the
/// name has no `\` either, this holds whichever characters separate.
pub proof fn law_last_component_decides(dir: Seq<char>, name: Seq<char>)
    requires
        name.len() > 0,
        !name.contains('/'),
        name != seq!['.'],
    ensures
        file_name(components((dir + seq!['/']) + name)) == file_name(components(name)),
        is_key_file(components((dir + seq!['/']) + name)) == is_key_file(components(name)),
        !name.contains('\\') ==> is_key_file(components(slashed((dir + seq!['/']) + name)))
            == is_key_file(components(name)),
{
    lemma_last_component(dir, name);
    if !name.contains('\\') {
        lemma_last_component(slashed(dir), name);
        assert forall|i: int| 0 <= i < name.len() implies name[i] != '\\' by {
            assert(name.contains(name[i]));
        }
        assert(slashed((dir + seq!['/']) + name) =~= (slashed(dir) + seq!['/']) + name);
    }
}

/// The last component of a name in a directory is that of the name alone.
proof fn lemma_last_component(dir: Seq<char>, name: Seq<char>)
    requires
        name.len() > 0,
        !name.contains('/'),
        name != seq!['.'],
    ensures
        file_name(components((dir + seq!['/']) + name)) == file_name(components(name)),
{
    let text = (dir + seq!['/']) + name;
    lemma_pieces_of_joined(dir, name);
    lemma_pieces_of_name(name);
    lemma_some_piece(dir);
    assert(pieces(text).drop_last() =~= pieces(dir));
    assert(pieces(text).last() == name);
    assert(pieces(name).last() == name);
    let component = piece_component(name, false)->0;
    assert(piece_component(name, false) == Some(component));
    assert(piece_component(name, true) == Some(component));
    assert(components(text).last() == component);
    assert(components(name).last() == component);
}

/// Every text has a piece.
proof fn lemma_some_piece(text: Seq<char>)
    ensures
        pieces(text).len() > 0,
    decreases text.len(),
{
    if text.len() > 0 {
        lemma_some_piece(text.drop_last());
    }
}

/// The components of a path text, built up name by name: a name in a directory adds itself to
/// the components of the directory, `..` adds a step up, and `.` and an empty name add nothing.
pub proof fn law_components_of_name_in_dir(dir: Seq<char>, name: Seq<char>)
    requires
        dir.len() > 0,
        !name.contains('/'),
    ensures
        components((dir + seq!['/']) + name) == if name.len() == 0 || name == seq!['.'] {
            components(dir)
        } else if name == seq!['.', '.'] {
            components(dir).push(Component::ParentDir)
        } else {
            components(dir).push(Component::Normal(name))
        },
{
    let text = (dir + seq!['/']) + name;
    lemma_pieces_of_joined(dir, name);
    lemma_some_piece(dir);
    assert(pieces(text).drop_last() =~= pieces(dir));
    assert(pieces(text).last() == name);
    assert(text[0] == dir[0]);
    let root = if text[0] == '/' {
        seq![Component::RootDir]
    } else {
        Seq::empty()
    };
    if let Some(component) = piece_component(name, false) {
        assert(root + piece_components(pieces(dir)).push(component) =~= (root + piece_components(
            pieces(dir),
        )).push(component));
    }
}

/// A single name, with or without a `/` before it, is its own path; `.` alone is a path only if
/// nothing stands before it.
pub proof fn law_components_of_name(name: Seq<char>)
    requires
        !name.contains('/'),
    ensures
        components(name) == if name.len() == 0 {
            Seq::empty()
        } else if name == seq!['.'] {
            seq![Component::CurDir]
        } else if name == seq!['.', '.'] {
            seq![Component::ParentDir]
        } else {
            seq![Component::Normal(name)]
        },
        components(seq!['/'] + name) == if name.len() == 0 || name == seq!['.'] {
            seq![Component::RootDir]
        } else if name == seq!['.', '.'] {
            seq![Component::RootDir, Component::ParentDir]
        } else {
            seq![Component::RootDir, Component::Normal(name)]
        },
{
    lemma_pieces_of_name(name);
    assert(pieces(name).drop_last() =~= Seq::<Seq<char>>::empty());
    assert(pieces(name).last() == name);
    if name.len() > 0 {
        assert(name.contains(name[0]));
    }
    assert(components(name) =~= piece_components(pieces(name)));
    let none = Seq::<char>::empty();
    lemma_pieces_of_joined(none, name);
    assert((none + seq!['/']) + name =~= seq!['/'] + name);
    let text = seq!['/'] + name;
    assert(pieces(none) =~= seq![none]);
    assert(pieces(text).drop_last() =~= seq![none]);
    assert(pieces(text).last() == name);
    assert(seq![none].drop_last() =~= Seq::<Seq<char>>::empty());
    assert(seq![none].last() == none);
    reveal_with_fuel(piece_components, 3);
    assert(piece_components(seq![none]) =~= Seq::<Component>::empty());
    assert(components(text) =~= seq![Component::RootDir] + piece_components(pieces(text)));
    if let Some(component) = piece_component(name, false) {
        assert(components(text) =~= seq![Component::RootDir, component]);
    } else {
        assert(components(text) =~= seq![Component::RootDir]);
    }
}

} // verus!
