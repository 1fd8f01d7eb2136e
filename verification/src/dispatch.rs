use vstd::prelude::*;
use crate::nav::{App, clamped_index};

verus! {

/// One keyboard input, as the event loop understands it.
pub enum Key {
    Quit,
    ToggleHidden,
    Up,
    Down,
    Enter,
    Back,
    Other,
}

/// What the caller must do next: the outside work, if any, that the
/// decided transition needs before it can be committed.
pub enum Cmd {
    /// Leave the event loop.
    Quit,
    /// Nothing to do: redraw and read the next key.
    Idle,
    /// Read this directory's children, then commit them with
    /// `App::navigate_to`.
    EnterDir { path: String },
    /// Re-read the current directory's children, then commit them with
    /// `App::toggle_hidden_files`.
    Reload,
    /// Read the parent directory's children, then commit them with
    /// `App::navigate_up`.
    Ascend,
    /// Run the editor on this file; the browsing state stays as it is.
    OpenFile { path: String },
}

/// Decide what one key does: cursor moves happen at once; every
/// transition that needs the filesystem or the editor is returned as a
/// command for the caller to perform, with the state left untouched
/// until the caller commits the result.
pub fn handle_key(app: &mut App, key: Key) -> (c: Cmd)
    requires
        old(app).wf(),
    ensures
        final(app).wf(),
        match key {
            Key::Quit => c is Quit && *final(app) == *old(app),
            Key::ToggleHidden => c is Reload && *final(app) == *old(app),
            Key::Up => (
                c is Idle
                && final(app).selected_index as int == clamped_index(
                    old(app).selected_index as int,
                    -1,
                    old(app).entries@.len() as int,
                )
                && final(app).entries == old(app).entries
                && final(app).current_dir == old(app).current_dir
                && final(app).show_hidden == old(app).show_hidden
            ),
            Key::Down => (
                c is Idle
                && final(app).selected_index as int == clamped_index(
                    old(app).selected_index as int,
                    1,
                    old(app).entries@.len() as int,
                )
                && final(app).entries == old(app).entries
                && final(app).current_dir == old(app).current_dir
                && final(app).show_hidden == old(app).show_hidden
            ),
            Key::Enter => *final(app) == *old(app) && (
                if old(app).entries@.len() == 0 {
                    c is Idle
                } else {
                    (
                        {
                            let e = old(app).entries@[old(app).selected_index as int]@;
                            if e.is_dir {
                                c matches Cmd::EnterDir { path } && path@ == e.path
                            } else {
                                c matches Cmd::OpenFile { path } && path@ == e.path
                            }
                        }
                    )
                }
            ),
            Key::Back => c is Ascend && *final(app) == *old(app),
            Key::Other => c is Idle && *final(app) == *old(app),
        },
{
    match key {
        Key::Quit => Cmd::Quit,
        Key::ToggleHidden => Cmd::Reload,
        Key::Up => {
            app.move_cursor(-1);
            Cmd::Idle
        },
        Key::Down => {
            app.move_cursor(1);
            Cmd::Idle
        },
        Key::Enter => {
            if app.entries.len() == 0 {
                Cmd::Idle
            } else {
                let e = &app.entries[app.selected_index];
                if e.is_dir {
                    Cmd::EnterDir { path: e.path.clone() }
                } else {
                    Cmd::OpenFile { path: e.path.clone() }
                }
            }
        },
        Key::Back => Cmd::Ascend,
        Key::Other => Cmd::Idle,
    }
}

} // verus!
