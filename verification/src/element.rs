//! The entry model: a snapshot of what one filesystem object shows in a listing.

use crate::utils::{
    after_last, chars_of, get_icon_file_type, icon_text, lemma_after_last, text_after_last,
};
use vstd::prelude::*;
use vstd::string::*;

verus! {

/// The kind of a filesystem object. A symbolic link is a `Link` whatever its
/// target is.
#[derive(Copy, Clone, PartialEq, Eq, Structural, Debug)]
pub enum TypeOfFile {
    File,
    Dir,
    Link,
    Block,
    Socket,
}

/// A point in time: whole seconds since 1970-01-01 00:00:00 UTC, negative
/// before it, and the nanoseconds since that whole second.
#[derive(Copy, Clone, PartialEq, Eq, Structural, Debug)]
pub struct Timestamp {
    pub secs: i64,
    pub nanos: u32,
}

/// What the operating system reports of a path that it could examine.
#[derive(Debug)]
pub struct FileStat {
    /// The raw target text, where the path itself is a symbolic link.
    pub link_target: Option<String>,
    /// The next four describe the object that the path leads to, links followed.
    pub is_dir: bool,
    pub is_file: bool,
    pub is_block_device: bool,
    pub is_socket: bool,
    /// Its length in bytes.
    pub len: u64,
    /// Its permission bits.
    pub mode: u32,
    /// Its creation time, where the system keeps one.
    pub created: Option<Timestamp>,
}

/// The mathematical value of an `Element`.
pub struct ElementView {
    pub path: Seq<char>,
    pub file_type: TypeOfFile,
    pub name: Seq<char>,
    pub perms: Option<u32>,
    pub size: u64,
    pub creation: Timestamp,
}

/// One entry of a directory as a listing shows it. It is made once and then
/// only read.
#[derive(Debug)]
pub struct Element {
    path: String,
    file_type: TypeOfFile,
    name: String,
    perms: Option<u32>,
    size: u64,
    creation: Timestamp,
}

impl View for Element {
    type V = ElementView;

    closed spec fn view(&self) -> ElementView {
        ElementView {
            path: self.path@,
            file_type: self.file_type,
            name: self.name@,
            perms: self.perms,
            size: self.size,
            creation: self.creation,
        }
    }
}

/// The values of a row of entries.
pub open spec fn element_views(elements: Seq<Element>) -> Seq<ElementView> {
    elements.map_values(|e: Element| e@)
}

/// The start of time as entries count it.
pub open spec fn epoch() -> Timestamp {
    Timestamp { secs: 0, nanos: 0 }
}

/// The text of a path behind its last separator.
pub open spec fn base_name(path: Seq<char>) -> Seq<char> {
    after_last(path, '/')
}

/// A path without what closes it and names nothing: separators at its end,
/// and a dot that stands alone behind a separator at its end.
pub open spec fn without_closing(path: Seq<char>) -> Seq<char>
    decreases path.len(),
{
    if path.len() > 0 && path.last() == '/' {
        without_closing(path.drop_last())
    } else if path.len() >= 2 && path.last() == '.' && path[path.len() - 2] == '/' {
        without_closing(path.drop_last())
    } else {
        path
    }
}

/// The last component of a path: what stands behind the last separator
/// once the path's closing separators and dots are gone.
pub open spec fn last_component(path: Seq<char>) -> Seq<char> {
    base_name(without_closing(path))
}

/// Whether a component names a file: it is not empty and is neither the
/// directory itself (`.`) nor its parent (`..`).
pub open spec fn is_plain_name(component: Seq<char>) -> bool {
    component.len() > 0 && component != seq!['.'] && component != seq!['.', '.']
}

/// The file name of a path that could be examined: its last component,
/// so that `dir/` and `dir/.` are named `dir`. Where the last component
/// names no file (the path is empty, is the root, or ends in `.` or `..`)
/// the name is the text behind the last separator, as for a placeholder.
pub open spec fn file_name(path: Seq<char>) -> Seq<char> {
    if is_plain_name(last_component(path)) {
        last_component(path)
    } else {
        base_name(path)
    }
}

/// A file name holds no separator, and the file name of a path that ends
/// in a plain name is the text behind its last separator.
pub proof fn lemma_file_name(path: Seq<char>)
    ensures
        !file_name(path).contains('/'),
        is_plain_name(base_name(path)) ==> file_name(path) == base_name(path),
{
    lemma_after_last(path, '/');
    lemma_after_last(without_closing(path), '/');
    if is_plain_name(base_name(path)) {
        let name = base_name(path);
        assert(path.last() == name.last());
        if path.last() == '.' && path.len() >= 2 && path[path.len() - 2] == '/' {
            assert(name.len() == 1) by {
                if name.len() >= 2 {
                    assert(name[name.len() - 2] == '/');
                    assert(name.contains('/'));
                }
            }
            assert(name =~= seq!['.']);
        }
    }
}

/// The kind of an examined path. A link wins over what it leads to, then a
/// directory, a regular file, a block device and a socket; anything else
/// counts as a regular file.
pub open spec fn kind_of(stat: FileStat) -> TypeOfFile {
    if stat.link_target is Some {
        TypeOfFile::Link
    } else if stat.is_dir {
        TypeOfFile::Dir
    } else if stat.is_file {
        TypeOfFile::File
    } else if stat.is_block_device {
        TypeOfFile::Block
    } else if stat.is_socket {
        TypeOfFile::Socket
    } else {
        TypeOfFile::File
    }
}

/// The name that an examined path is shown under: its file name, and for a
/// symbolic link an arrow and the raw target behind it.
pub open spec fn display_name(path: Seq<char>, stat: FileStat) -> Seq<char> {
    match stat.link_target {
        Some(target) => file_name(path) + " -> "@ + target@,
        None => file_name(path),
    }
}

/// The entry that stands for `path`. A path that could not be examined
/// (`stat` is `None`) becomes a placeholder: an empty regular file made at
/// the epoch, named by the text behind the last separator of the path. A
/// directory has size 0, and `now` stands in for a creation time that the
/// system does not keep.
pub open spec fn element_of(path: Seq<char>, stat: Option<FileStat>, now: Timestamp)
    -> ElementView {
    match stat {
        None => ElementView {
            path,
            file_type: TypeOfFile::File,
            name: base_name(path),
            perms: None,
            size: 0,
            creation: epoch(),
        },
        Some(stat) => ElementView {
            path,
            file_type: kind_of(stat),
            name: display_name(path, stat),
            perms: Some(stat.mode),
            size: if kind_of(stat) == TypeOfFile::Dir {
                0
            } else {
                stat.len
            },
            creation: match stat.created {
                Some(t) => t,
                None => now,
            },
        },
    }
}

/// What holds of every entry that `Element::new` makes: a directory has no
/// size, and only the name of a link holds a path separator.
pub open spec fn well_formed(e: ElementView) -> bool {
    &&& e.file_type == TypeOfFile::Dir ==> e.size == 0
    &&& e.file_type != TypeOfFile::Link ==> !e.name.contains('/')
}

/// The text of one entry in a listing: its glyph, its name, a slash behind a
/// directory, and a space.
pub open spec fn rendered_text(e: ElementView) -> Seq<char> {
    let icon = match e.file_type {
        TypeOfFile::File => icon_text(e.name),
        TypeOfFile::Dir => "\u{f4d4} "@,
        TypeOfFile::Link => "\u{f1177} "@,
        TypeOfFile::Block => "\u{f02ca} "@,
        TypeOfFile::Socket => "\u{f06f3} "@,
    };
    let slash = if e.file_type == TypeOfFile::Dir {
        "/"@
    } else {
        Seq::<char>::empty()
    };
    icon + e.name + slash + " "@
}

/// Whether the first `end` scalar values of a path end in what closes it
/// and names nothing: a separator, or a dot alone behind a separator.
fn ends_closed(chars: &Vec<char>, end: usize) -> (closed: bool)
    requires
        0 < end <= chars.len(),
    ensures
        closed == (chars@[end - 1] == '/' || (end >= 2 && chars@[end - 1] == '.' && chars@[end
            - 2] == '/')),
{
    chars[end - 1] == '/' || (end >= 2 && chars[end - 1] == '.' && chars[end - 2] == '/')
}

/// The file name of a path that could be examined.
pub fn file_name_of(path_str: &str) -> (name: String)
    ensures
        name@ == file_name(path_str@),
{
    let chars = chars_of(path_str);
    let mut end: usize = chars.len();
    assert(chars@.take(end as int) =~= chars@);
    while end > 0 && ends_closed(&chars, end)
        invariant
            end <= chars.len(),
            chars@ == path_str@,
            without_closing(chars@) == without_closing(chars@.take(end as int)),
        decreases end,
    {
        assert(chars@.take(end as int).drop_last() =~= chars@.take(end - 1));
        end -= 1;
    }
    let kept = path_str.substring_char(0, end);
    assert(kept@ =~= without_closing(path_str@));
    let component = text_after_last(kept, '/');
    let c = chars_of(component.as_str());
    let dots = if c.len() == 1 {
        c[0] == '.'
    } else if c.len() == 2 {
        c[0] == '.' && c[1] == '.'
    } else {
        false
    };
    proof {
        assert(dots == (c@ =~= seq!['.'] || c@ =~= seq!['.', '.']));
    }
    if c.len() == 0 || dots {
        text_after_last(path_str, '/')
    } else {
        component
    }
}

impl Clone for Element {
    fn clone(&self) -> (copy: Self)
        ensures
            copy@ == self@,
    {
        Element {
            path: self.path.clone(),
            file_type: self.file_type,
            name: self.name.clone(),
            perms: self.perms,
            size: self.size,
            creation: self.creation,
        }
    }
}

impl Element {
    /// Makes the entry for `path_str` out of what the system reported of it:
    /// `stat` is `None` where the path could not be examined, and `now` is
    /// the current time.
    pub fn new(path_str: &str, stat: Option<FileStat>, now: Timestamp) -> (e: Element)
        ensures
            e@ == element_of(path_str@, stat, now),
            well_formed(e@),
    {
        proof {
            lemma_after_last(path_str@, '/');
            lemma_file_name(path_str@);
        }
        let stat = match stat {
            Some(stat) => stat,
            None => {
                return Element {
                    path: path_str.to_owned(),
                    file_type: TypeOfFile::File,
                    name: text_after_last(path_str, '/'),
                    perms: None,
                    size: 0,
                    creation: Timestamp { secs: 0, nanos: 0 },
                };
            },
        };
        let t = if stat.link_target.is_some() {
            TypeOfFile::Link
        } else if stat.is_dir {
            TypeOfFile::Dir
        } else if stat.is_file {
            TypeOfFile::File
        } else if stat.is_block_device {
            TypeOfFile::Block
        } else if stat.is_socket {
            TypeOfFile::Socket
        } else {
            TypeOfFile::File
        };
        let mut name = file_name_of(path_str);
        match &stat.link_target {
            Some(target) => {
                name.append(" -> ");
                name.append(target.as_str());
            },
            None => {},
        }
        Element {
            path: path_str.to_owned(),
            file_type: t,
            name,
            perms: Some(stat.mode),
            size: if t == TypeOfFile::Dir {
                0
            } else {
                stat.len
            },
            creation: match stat.created {
                Some(created) => created,
                None => now,
            },
        }
    }

    pub fn get_path_string(&self) -> (path: String)
        ensures
            path@ == self@.path,
    {
        self.path.clone()
    }

    pub fn get_file_type(&self) -> (file_type: TypeOfFile)
        ensures
            file_type == self@.file_type,
    {
        self.file_type
    }

    pub fn get_name(&self) -> (name: String)
        ensures
            name@ == self@.name,
    {
        self.name.clone()
    }

    pub fn get_perms(&self) -> (perms: Option<u32>)
        ensures
            perms == self@.perms,
    {
        self.perms
    }

    pub fn get_size(&self) -> (size: u64)
        ensures
            size == self@.size,
    {
        self.size
    }

    pub fn get_creation(&self) -> (creation: Timestamp)
        ensures
            creation == self@.creation,
    {
        self.creation
    }

    /// The entry as a listing shows it.
    pub fn to_string(&self) -> (text: String)
        ensures
            text@ == rendered_text(self@),
    {
        let mut text = String::new();
        match self.file_type {
            TypeOfFile::File => {
                text.append(get_icon_file_type(self.get_name()));
            },
            TypeOfFile::Dir => {
                text.append("\u{f4d4} ");
            },
            TypeOfFile::Link => {
                text.append("\u{f1177} ");
            },
            TypeOfFile::Block => {
                text.append("\u{f02ca} ");
            },
            TypeOfFile::Socket => {
                text.append("\u{f06f3} ");
            },
        }
        text.append(self.name.as_str());
        if self.file_type == TypeOfFile::Dir {
            proof {
                reveal_strlit("/");
            }
            text.append("/");
        }
        text.append(" ");
        text
    }
}

} // verus!
