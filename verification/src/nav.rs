use vstd::prelude::*;
use crate::entry::{EntryView, FileEntry, views};
use crate::listing::{build_listing, full_listing};
use crate::paths::{parent_of, parent_seq};

verus! {

/// The navigation state: the single owner of the current directory, its
/// listing, the cursor and the hidden-files flag. The four transitions
/// below are the only way the listing or the cursor change.
pub struct App {
    pub current_dir: String,
    pub entries: Vec<FileEntry>,
    pub selected_index: usize,
    pub show_hidden: bool,
}

/// Where the cursor lands: moved by `delta` and clamped into the
/// listing's bounds, staying 0 on an empty listing.
pub open spec fn clamped_index(cur: int, delta: int, len: int) -> int {
    if len <= 0 {
        0
    } else if cur + delta < 0 {
        0
    } else if cur + delta > len - 1 {
        len - 1
    } else {
        cur + delta
    }
}

impl App {
    /// The cursor is a valid index of the listing, or 0 when it is empty.
    pub open spec fn wf(self) -> bool {
        if self.entries@.len() == 0 {
            self.selected_index == 0
        } else {
            self.selected_index < self.entries@.len()
        }
    }

    /// The state that every load commits: directory `dir`, the listing
    /// built from `children` under `show_hidden`, cursor reset to 0.
    pub open spec fn loaded(
        self,
        dir: Seq<char>,
        children: Seq<EntryView>,
        show_hidden: bool,
    ) -> bool {
        &&& self.current_dir@ == dir
        &&& views(self.entries@) == full_listing(dir, children, show_hidden)
        &&& self.selected_index == 0
        &&& self.show_hidden == show_hidden
    }

    /// The starting state: directory `dir`, listed from its raw children.
    pub fn new(dir: String, show_hidden: bool, children: Vec<FileEntry>) -> (r: App)
        ensures
            r.loaded(dir@, views(children@), show_hidden),
            r.wf(),
    {
        let entries = build_listing(dir.as_str(), children, show_hidden);
        App { current_dir: dir, entries, selected_index: 0, show_hidden }
    }

    /// Rebuild the current directory's listing from fresh raw children
    /// and reset the cursor.
    pub fn refresh_entries(&mut self, children: Vec<FileEntry>)
        requires
            old(self).wf(),
        ensures
            final(self).loaded(
                old(self).current_dir@,
                views(children@),
                old(self).show_hidden,
            ),
            final(self).current_dir == old(self).current_dir,
            final(self).wf(),
    {
        let entries = build_listing(self.current_dir.as_str(), children, self.show_hidden);
        self.entries = entries;
        self.selected_index = 0;
    }

    /// Enter `path` when the filesystem reports it as a directory, with
    /// its fresh raw children in hand; otherwise change nothing.
    pub fn navigate_to(&mut self, path: String, is_dir: bool, children: Vec<FileEntry>)
        requires
            old(self).wf(),
        ensures
            is_dir ==> final(self).loaded(path@, views(children@), old(self).show_hidden),
            !is_dir ==> *final(self) == *old(self),
            final(self).wf(),
    {
        if is_dir {
            self.current_dir = path;
            let entries = build_listing(self.current_dir.as_str(), children, self.show_hidden);
            self.entries = entries;
            self.selected_index = 0;
        }
    }

    /// Move to the parent directory, with its fresh raw children in hand;
    /// at a directory without a parent, change nothing.
    pub fn navigate_up(&mut self, children: Vec<FileEntry>)
        requires
            old(self).wf(),
        ensures
            parent_seq(old(self).current_dir@) is None ==> *final(self) == *old(self),
            parent_seq(old(self).current_dir@) matches Some(p) ==> final(self).loaded(
                p,
                views(children@),
                old(self).show_hidden,
            ),
            final(self).wf(),
    {
        match parent_of(self.current_dir.as_str()) {
            Some(p) => {
                self.current_dir = p;
                let entries = build_listing(
                    self.current_dir.as_str(),
                    children,
                    self.show_hidden,
                );
                self.entries = entries;
                self.selected_index = 0;
            },
            None => {},
        }
    }

    /// Flip the hidden-files flag and rebuild the current directory's
    /// listing from fresh raw children under the new flag.
    pub fn toggle_hidden_files(&mut self, children: Vec<FileEntry>)
        requires
            old(self).wf(),
        ensures
            final(self).show_hidden == !old(self).show_hidden,
            final(self).loaded(
                old(self).current_dir@,
                views(children@),
                !old(self).show_hidden,
            ),
            final(self).current_dir == old(self).current_dir,
            final(self).wf(),
    {
        self.show_hidden = !self.show_hidden;
        let entries = build_listing(self.current_dir.as_str(), children, self.show_hidden);
        self.entries = entries;
        self.selected_index = 0;
    }

    /// Move the cursor by `delta`, clamped into the listing's bounds;
    /// the listing itself never changes.
    pub fn move_cursor(&mut self, delta: i64)
        requires
            old(self).wf(),
        ensures
            final(self).selected_index as int == clamped_index(
                old(self).selected_index as int,
                delta as int,
                old(self).entries@.len() as int,
            ),
            final(self).entries == old(self).entries,
            final(self).current_dir == old(self).current_dir,
            final(self).show_hidden == old(self).show_hidden,
            final(self).wf(),
    {
        if self.entries.len() == 0 {
            self.selected_index = 0;
            return;
        }
        let cur: i128 = self.selected_index as i128;
        let d: i128 = delta as i128;
        let len: i128 = self.entries.len() as i128;
        let t: i128 = cur + d;
        let clamped: i128 = if t < 0 {
            0
        } else if t > len - 1 {
            len - 1
        } else {
            t
        };
        self.selected_index = clamped as usize;
    }
}

} // verus!
