use vstd::prelude::*;

verus! {

/// One filesystem child as the listing shows it: display name, absolute
/// path, directory flag, byte size (0 for directories) and a formatted
/// modified-time string ("Unknown" when the timestamp is unavailable).
pub struct FileEntry {
    pub name: String,
    pub path: String,
    pub is_dir: bool,
    pub size: u64,
    pub modified: String,
}

/// The mathematical shape of an entry: its strings as character sequences.
pub struct EntryView {
    pub name: Seq<char>,
    pub path: Seq<char>,
    pub is_dir: bool,
    pub size: u64,
    pub modified: Seq<char>,
}

impl View for FileEntry {
    type V = EntryView;

    open spec fn view(&self) -> EntryView {
        EntryView {
            name: self.name@,
            path: self.path@,
            is_dir: self.is_dir,
            size: self.size,
            modified: self.modified@,
        }
    }
}

impl EntryView {
    /// The shape the listing stores: directories carry size 0.
    pub open spec fn normalized(self) -> bool {
        self.is_dir ==> self.size == 0
    }

    /// The same entry with its size forced to 0 when it is a directory.
    pub open spec fn normalize(self) -> EntryView {
        EntryView { size: if self.is_dir { 0 } else { self.size }, ..self }
    }
}

/// The views of a sequence of entries.
pub open spec fn views(s: Seq<FileEntry>) -> Seq<EntryView> {
    s.map_values(|e: FileEntry| e@)
}

impl FileEntry {
    /// Replace a directory's raw size with 0, as the listing stores it.
    pub fn normalize(self) -> (r: FileEntry)
        ensures
            r@ == self@.normalize(),
    {
        if self.is_dir {
            FileEntry { size: 0, ..self }
        } else {
            self
        }
    }
}

/// A name marks a hidden child when it starts with the hidden-file marker '.'.
pub open spec fn is_hidden_name(name: Seq<char>) -> bool {
    name.len() > 0 && name[0] == '.'
}

/// A child appears in the listing when it is not hidden, or when hidden
/// entries are being shown.
pub open spec fn visible(name: Seq<char>, show_hidden: bool) -> bool {
    show_hidden || !is_hidden_name(name)
}

/// Whether `name` starts with the hidden-file marker.
pub fn is_hidden(name: &str) -> (r: bool)
    ensures
        r == is_hidden_name(name@),
{
    let n = name.unicode_len();
    n > 0 && name.get_char(0) == '.'
}

} // verus!
