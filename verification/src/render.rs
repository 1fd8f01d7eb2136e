use vstd::prelude::*;
use crate::entry::{EntryView, FileEntry};
use crate::nav::App;
use crate::trusted::{human_size, human_size_of};

verus! {

/// How a listing row is shown: inverted under the cursor, coloured for a
/// directory, plain otherwise.
pub enum RowKind {
    Selected,
    Directory,
    Plain,
}

/// One rendered listing line.
pub struct Row {
    pub text: String,
    pub kind: RowKind,
}

/// The frame the terminal shows: a status line with the current
/// directory, the listing rows, and a static help line.
pub struct Frame {
    pub status: String,
    pub rows: Vec<Row>,
    pub help: String,
}

/// `n` spaces.
pub open spec fn spaces(n: nat) -> Seq<char>
    decreases n,
{
    if n == 0 {
        Seq::empty()
    } else {
        spaces((n - 1) as nat).push(' ')
    }
}

/// `s` padded with spaces on the right to at least `w` characters.
pub open spec fn padded(s: Seq<char>, w: int) -> Seq<char> {
    if s.len() >= w {
        s
    } else {
        s + spaces((w - s.len()) as nat)
    }
}

/// The name column: a directory carries a '/' suffix.
pub open spec fn decorated(e: EntryView) -> Seq<char> {
    if e.is_dir {
        e.name + seq!['/']
    } else {
        e.name
    }
}

/// The size column: "DIR" for a directory, the human-readable byte count
/// otherwise.
pub open spec fn size_text(e: EntryView) -> Seq<char> {
    if e.is_dir {
        "DIR"@
    } else {
        human_size_of(e.size)
    }
}

/// One row's text: name, size and modified time in fixed columns.
pub open spec fn row_text(e: EntryView) -> Seq<char> {
    padded(decorated(e), 40) + seq![' '] + padded(size_text(e), 12) + seq![' '] + e.modified
}

/// How row `i` is shown when the cursor stands at `sel`.
pub open spec fn row_kind_of(i: int, sel: int, e: EntryView) -> RowKind {
    if i == sel {
        RowKind::Selected
    } else if e.is_dir {
        RowKind::Directory
    } else {
        RowKind::Plain
    }
}

/// The status line's text for the current directory.
pub open spec fn status_text(dir: Seq<char>) -> Seq<char> {
    " Current directory: "@ + dir + seq![' ']
}

/// The static key-binding legend.
pub open spec fn help_text() -> Seq<char> {
    "Up/Down: move  Enter: open  Backspace: parent  h: toggle hidden  q: quit"@
}

/// `s` padded with spaces on the right to at least `w` characters.
pub fn pad_to(s: String, w: usize) -> (r: String)
    ensures
        r@ == padded(s@, w as int),
{
    let ghost orig = s@;
    let mut t = s;
    let mut n = t.as_str().unicode_len();
    if n >= w {
        return t;
    }
    proof {
        assert(orig + spaces(0) =~= orig);
    }
    while n < w
        invariant
            orig.len() <= n <= w,
            n == t@.len(),
            t@ == orig + spaces((n - orig.len()) as nat),
        decreases w - n,
    {
        t.append(" ");
        proof {
            reveal_strlit(" ");
            assert(" "@ =~= seq![' ']);
            let k = (n - orig.len()) as nat;
            assert(spaces(k + 1) == spaces(k).push(' '));
            assert((orig + spaces(k)) + " "@ =~= orig + spaces(k + 1));
        }
        n = n + 1;
    }
    t
}

/// The frame for the current state: referentially transparent, so equal
/// states always draw the same frame.
pub fn render(app: &App) -> (f: Frame)
    requires
        app.wf(),
    ensures
        f.status@ == status_text(app.current_dir@),
        f.help@ == help_text(),
        f.rows@.len() == app.entries@.len(),
        forall|i: int|
            0 <= i < f.rows@.len() ==> (#[trigger] f.rows@[i]).text@ == row_text(
                app.entries@[i]@,
            ) && f.rows@[i].kind == row_kind_of(i, app.selected_index as int, app.entries@[i]@),
{
    proof {
        reveal_strlit(" ");
        reveal_strlit("/");
        assert(" "@ =~= seq![' ']);
        assert("/"@ =~= seq!['/']);
    }
    let status = String::from_str(" Current directory: ").concat(app.current_dir.as_str()).concat(
        " ",
    );
    proof {
        assert(status@ =~= status_text(app.current_dir@));
    }
    let help = String::from_str(
        "Up/Down: move  Enter: open  Backspace: parent  h: toggle hidden  q: quit",
    );
    let mut rows: Vec<Row> = Vec::new();
    let mut i: usize = 0;
    while i < app.entries.len()
        invariant
            app.wf(),
            i <= app.entries@.len(),
            rows@.len() == i,
            forall|k: int|
                0 <= k < i ==> (#[trigger] rows@[k]).text@ == row_text(app.entries@[k]@)
                    && rows@[k].kind == row_kind_of(k, app.selected_index as int, app.entries@[k]@),
        decreases app.entries@.len() - i,
    {
        proof {
            reveal_strlit(" ");
            reveal_strlit("/");
            assert(" "@ =~= seq![' ']);
            assert("/"@ =~= seq!['/']);
        }
        let e = &app.entries[i];
        let dec = if e.is_dir {
            e.name.clone().concat("/")
        } else {
            e.name.clone()
        };
        proof {
            assert(dec@ =~= decorated(e@));
        }
        let sz = if e.is_dir {
            String::from_str("DIR")
        } else {
            human_size(e.size)
        };
        let text = pad_to(dec, 40).concat(" ").concat(pad_to(sz, 12).as_str()).concat(" ").concat(
            e.modified.as_str(),
        );
        proof {
            assert(text@ =~= row_text(e@));
        }
        let kind = if i == app.selected_index {
            RowKind::Selected
        } else if e.is_dir {
            RowKind::Directory
        } else {
            RowKind::Plain
        };
        rows.push(Row { text, kind });
        i = i + 1;
    }
    Frame { status, rows, help }
}

} // verus!
