//! The interactive editor's state machine. It owns a snapshot of the
//! variables, a cursor with a scrolling window, an in-progress input
//! buffer and an edit-mode discriminant, and it consumes key events as
//! plain values. Every transition is specified exactly: navigation is a
//! pure function of the state, and the editing commits go through the
//! same validated store operations the one-shot commands use. The
//! terminal loop around it reads real key presses, converts them to
//! [`KeyEvent`] values and paints the state after every step.

use vstd::prelude::*;

use crate::commands::store_key_error_text;
use crate::store::Store;
use crate::text::{first_index_of, trim_str, trimmed};
use crate::variables::{acceptable_key, delete_variable, set_variable};

verus! {

/// Which pane of behaviour the editor is in.
#[derive(Debug, Clone, Copy, PartialEq, Eq, Structural)]
pub enum Mode {
    /// Browsing the variable list.
    List,
    /// Renaming the selected variable.
    EditKey,
    /// Rewriting the selected variable's value.
    EditValue,
    /// Creating a variable from a `KEY=VALUE` input.
    CreateNew,
}

impl Default for Mode {
    /// The editor starts out browsing the list.
    fn default() -> (r: Self)
        ensures
            r == Mode::List,
    {
        Mode::List
    }
}

/// A key the editor reacts to.
#[derive(Debug, Clone, Copy, PartialEq, Eq)]
pub enum KeyCode {
    /// The down arrow.
    Down,
    /// The up arrow.
    Up,
    /// The left arrow.
    Left,
    /// The right arrow.
    Right,
    /// The enter key.
    Enter,
    /// The escape key.
    Esc,
    /// The backspace key.
    Backspace,
    /// A printable character.
    Char(char),
    /// Any other key.
    Other,
}

/// One key press: the key and whether control was held.
#[derive(Debug, Clone, Copy, PartialEq, Eq)]
pub struct KeyEvent {
    /// The key pressed.
    pub code: KeyCode,
    /// Whether the control modifier was held.
    pub ctrl: bool,
}

/// The interactive editor's whole state.
#[derive(Debug)]
pub struct InteractiveMode {
    /// The current pane of behaviour.
    pub mode: Mode,
    /// Set when the user asked to leave the editor.
    pub exit: bool,
    /// The snapshot of variables being browsed.
    pub entries: Vec<(String, String)>,
    /// The selected row.
    pub current_index: usize,
    /// The first visible row.
    pub scroll_offset: usize,
    /// How many rows the list pane shows.
    pub visible_options: usize,
    /// The width at which a listed value is cut off.
    pub truncation_len: usize,
    /// How far the selected value is scrolled sideways.
    pub value_scroll_offset: usize,
    /// The text being typed in an edit pane.
    pub input_buffer: String,
    /// The failure to show on the next paint, if any.
    pub error_message: Option<String>,
    /// The store the editor reads snapshots from and commits into.
    pub store: Store,
}

impl InteractiveMode {
    /// The editor's structural invariant: the cursor stays inside the
    /// snapshot (and at zero when it is empty), the window never starts
    /// past the cursor, the sideways scroll never passes the selected
    /// value's end, and the store keeps its keys unique.
    pub open spec fn inv(self) -> bool {
        &&& self.store.wf()
        &&& self.entries@.len() == 0 ==> self.current_index == 0
        &&& self.entries@.len() > 0 ==> self.current_index < self.entries@.len()
        &&& self.scroll_offset <= self.current_index
        &&& self.entries@.len() > 0 ==> self.value_scroll_offset
            <= self.entries@[self.current_index as int].1@.len()
        &&& self.entries@.len() == 0 ==> self.value_scroll_offset == 0
    }
}

/// Where the cursor lands after one step down: one row further, clamped
/// to the last row; an empty list leaves it in place.
pub open spec fn down_index(i: nat, len: nat) -> nat {
    if i + 1 < len {
        i + 1
    } else {
        i
    }
}

/// Where the cursor lands after one step up: one row back, stopping at
/// the top.
pub open spec fn up_index(i: nat) -> nat {
    if i > 0 {
        (i - 1) as nat
    } else {
        0
    }
}

/// Where the window starts so that the cursor stays visible: recomputed
/// to the cursor when it left above, and to the last page position when
/// it left below.
pub open spec fn scroll_after(scroll: nat, i: nat, visible: nat) -> nat {
    if i < scroll {
        i
    } else if visible > 0 && i >= scroll + visible {
        (i + 1 - visible) as nat
    } else {
        scroll
    }
}

/// The state after one step down.
pub open spec fn nav_down(s: InteractiveMode) -> InteractiveMode {
    let i2 = down_index(s.current_index as nat, s.entries@.len());
    InteractiveMode {
        current_index: i2 as usize,
        value_scroll_offset: 0usize,
        scroll_offset: scroll_after(s.scroll_offset as nat, i2, s.visible_options as nat) as usize,
        ..s
    }
}

/// The state after one step up.
pub open spec fn nav_up(s: InteractiveMode) -> InteractiveMode {
    let i2 = up_index(s.current_index as nat);
    InteractiveMode {
        current_index: i2 as usize,
        value_scroll_offset: 0usize,
        scroll_offset: scroll_after(s.scroll_offset as nat, i2, s.visible_options as nat) as usize,
        ..s
    }
}

/// The state after scrolling the selected value one column left.
pub open spec fn nav_left(s: InteractiveMode) -> InteractiveMode {
    InteractiveMode {
        value_scroll_offset: if s.value_scroll_offset > 0 {
            (s.value_scroll_offset - 1) as usize
        } else {
            0usize
        },
        ..s
    }
}

/// The state after scrolling the selected value one column right,
/// clamped to the value's length.
pub open spec fn nav_right(s: InteractiveMode) -> InteractiveMode {
    InteractiveMode {
        value_scroll_offset: if s.entries@.len() > 0 && (s.value_scroll_offset as nat)
            < s.entries@[s.current_index as int].1@.len() {
            (s.value_scroll_offset + 1) as usize
        } else {
            s.value_scroll_offset
        },
        ..s
    }
}

/// The state with the leave flag raised.
pub open spec fn exited(s: InteractiveMode) -> InteractiveMode {
    InteractiveMode { exit: true, ..s }
}

/// The state with the failure note cleared.
pub open spec fn cleared(s: InteractiveMode) -> InteractiveMode {
    InteractiveMode { error_message: Option::<String>::None, ..s }
}

/// The state entering a rename of the selected variable.
pub open spec fn to_edit_key(s: InteractiveMode) -> InteractiveMode {
    InteractiveMode {
        mode: Mode::EditKey,
        input_buffer: s.entries@[s.current_index as int].0,
        ..s
    }
}

/// The state entering a rewrite of the selected variable's value.
pub open spec fn to_edit_value(s: InteractiveMode) -> InteractiveMode {
    InteractiveMode {
        mode: Mode::EditValue,
        input_buffer: s.entries@[s.current_index as int].1,
        ..s
    }
}

/// `post` and `pre` agree on everything outside the pane discriminant
/// and the input buffer.
pub open spec fn same_but_mode_buffer(pre: InteractiveMode, post: InteractiveMode) -> bool {
    &&& post.exit == pre.exit
    &&& post.entries == pre.entries
    &&& post.current_index == pre.current_index
    &&& post.scroll_offset == pre.scroll_offset
    &&& post.visible_options == pre.visible_options
    &&& post.truncation_len == pre.truncation_len
    &&& post.value_scroll_offset == pre.value_scroll_offset
    &&& post.store == pre.store
    &&& post.error_message == pre.error_message
}

/// `post` is `pre` after a fresh snapshot: the rows re-read from the
/// store and all cursor and scroll state back at zero.
pub open spec fn reload_rel(pre: InteractiveMode, post: InteractiveMode) -> bool {
    &&& post.store == pre.store
    &&& post.entries.deep_view() == pre.store.pairs()
    &&& post.current_index == 0
    &&& post.scroll_offset == 0
    &&& post.value_scroll_offset == 0
    &&& post.mode == pre.mode
    &&& post.exit == pre.exit
    &&& post.visible_options == pre.visible_options
    &&& post.truncation_len == pre.truncation_len
    &&& post.input_buffer == pre.input_buffer
    &&& post.error_message == pre.error_message
}

/// `post` is `pre` after deleting the selected variable: the binding is
/// gone — removing an absent key is a harmless no-op — and the snapshot
/// was re-read with the cursor back at the top.
pub open spec fn delete_sel(pre: InteractiveMode, post: InteractiveMode) -> bool {
    let k = pre.entries@[pre.current_index as int].0@;
    &&& post.store.wf()
    &&& post.store.as_map() == pre.store.as_map().remove(k)
    &&& post.entries.deep_view() == post.store.pairs()
    &&& post.current_index == 0
    &&& post.scroll_offset == 0
    &&& post.value_scroll_offset == 0
    &&& post.mode == pre.mode
    &&& post.exit == pre.exit
    &&& post.visible_options == pre.visible_options
    &&& post.truncation_len == pre.truncation_len
    &&& post.input_buffer == pre.input_buffer
    &&& post.error_message == pre.error_message
}

/// `post` is `pre` after committing `value` for `key` through the store:
/// on success the binding is made, the snapshot re-read and the editor is
/// back on the list; a key the store refuses leaves a failure note and
/// everything else in place.
pub open spec fn commit_set(
    pre: InteractiveMode,
    post: InteractiveMode,
    key: Seq<char>,
    value: Seq<char>,
) -> bool {
    if acceptable_key(key) {
        &&& post.store.wf()
        &&& post.store.as_map() == pre.store.as_map().insert(key, value)
        &&& post.entries.deep_view() == post.store.pairs()
        &&& post.current_index == 0
        &&& post.scroll_offset == 0
        &&& post.value_scroll_offset == 0
        &&& post.mode == Mode::List
        &&& post.exit == pre.exit
        &&& post.visible_options == pre.visible_options
        &&& post.truncation_len == pre.truncation_len
        &&& post.input_buffer == pre.input_buffer
        &&& post.error_message == pre.error_message
    } else {
        &&& (post.error_message matches Some(m) && m@ == "Set variable failed: "@
            + store_key_error_text(key))
        &&& post.store == pre.store
        &&& post.entries == pre.entries
        &&& post.current_index == pre.current_index
        &&& post.scroll_offset == pre.scroll_offset
        &&& post.value_scroll_offset == pre.value_scroll_offset
        &&& post.mode == pre.mode
        &&& post.exit == pre.exit
        &&& post.visible_options == pre.visible_options
        &&& post.truncation_len == pre.truncation_len
        &&& post.input_buffer == pre.input_buffer
    }
}

/// `post` is `pre` after committing a rename of the selected variable to
/// `new_key`: the old value is bound to the new key and the old binding
/// is removed afterwards, so renaming to the same name removes the
/// binding; a refused key leaves a failure note instead.
pub open spec fn commit_rename(
    pre: InteractiveMode,
    post: InteractiveMode,
    new_key: Seq<char>,
) -> bool {
    let old_key = pre.entries@[pre.current_index as int].0@;
    let old_value = pre.entries@[pre.current_index as int].1@;
    if acceptable_key(new_key) {
        &&& post.store.wf()
        &&& post.store.as_map() == pre.store.as_map().insert(new_key, old_value).remove(old_key)
        &&& post.entries.deep_view() == post.store.pairs()
        &&& post.current_index == 0
        &&& post.scroll_offset == 0
        &&& post.value_scroll_offset == 0
        &&& post.mode == Mode::List
        &&& post.exit == pre.exit
        &&& post.visible_options == pre.visible_options
        &&& post.truncation_len == pre.truncation_len
        &&& post.input_buffer == pre.input_buffer
        &&& post.error_message == pre.error_message
    } else {
        &&& (post.error_message matches Some(m) && m@ == "Set variable failed: "@
            + store_key_error_text(new_key))
        &&& post.store == pre.store
        &&& post.entries == pre.entries
        &&& post.current_index == pre.current_index
        &&& post.scroll_offset == pre.scroll_offset
        &&& post.value_scroll_offset == pre.value_scroll_offset
        &&& post.mode == pre.mode
        &&& post.exit == pre.exit
        &&& post.visible_options == pre.visible_options
        &&& post.truncation_len == pre.truncation_len
        &&& post.input_buffer == pre.input_buffer
    }
}

/// How one key press moves the state while browsing the list.
pub open spec fn list_step(pre: InteractiveMode, key: KeyEvent, post: InteractiveMode) -> bool {
    match key.code {
        KeyCode::Char(c) => {
            if key.ctrl && (c == 'q' || c == 'Q') {
                post == exited(pre)
            } else if key.ctrl && (c == 'r' || c == 'R') {
                reload_rel(pre, post)
            } else if c == 'e' {
                if pre.entries@.len() > 0 {
                    post == to_edit_key(pre)
                } else {
                    post == pre
                }
            } else if c == 'v' {
                if pre.entries@.len() > 0 {
                    post == to_edit_value(pre)
                } else {
                    post == pre
                }
            } else if c == 'n' {
                same_but_mode_buffer(pre, post) && post.mode == Mode::CreateNew
                    && post.input_buffer@ == Seq::<char>::empty()
            } else if c == 'd' {
                if pre.entries@.len() > 0 {
                    delete_sel(pre, post)
                } else {
                    post == pre
                }
            } else {
                post == pre
            }
        },
        KeyCode::Down => post == nav_down(pre),
        KeyCode::Up => post == nav_up(pre),
        KeyCode::Left => post == nav_left(pre),
        KeyCode::Right => post == nav_right(pre),
        _ => post == pre,
    }
}

/// `post` and `pre` agree on everything but the input buffer, which now
/// holds `b`.
pub open spec fn buffer_now(pre: InteractiveMode, post: InteractiveMode, b: Seq<char>) -> bool {
    same_but_mode_buffer(pre, post) && post.mode == pre.mode && post.input_buffer@ == b
}

/// How one key press moves the state while renaming the selected
/// variable: characters grow the buffer, escape abandons the rename, and
/// enter commits a non-empty trimmed buffer as the new name.
pub open spec fn edit_key_step(pre: InteractiveMode, key: KeyEvent, post: InteractiveMode) -> bool {
    match key.code {
        KeyCode::Enter => {
            if pre.entries@.len() == 0 {
                post == pre
            } else {
                let new_key = trimmed(pre.input_buffer@);
                if new_key.len() == 0 {
                    post == pre
                } else {
                    commit_rename(pre, post, new_key)
                }
            }
        },
        KeyCode::Esc => post == InteractiveMode { mode: Mode::List, ..pre },
        KeyCode::Char(c) => buffer_now(pre, post, pre.input_buffer@.push(c)),
        KeyCode::Backspace => buffer_now(
            pre,
            post,
            if pre.input_buffer@.len() > 0 {
                pre.input_buffer@.drop_last()
            } else {
                Seq::<char>::empty()
            },
        ),
        _ => post == pre,
    }
}

/// How one key press moves the state while rewriting the selected
/// variable's value: enter commits the trimmed buffer as the new value.
pub open spec fn edit_value_step(pre: InteractiveMode, key: KeyEvent, post: InteractiveMode) -> bool {
    match key.code {
        KeyCode::Enter => {
            if pre.entries@.len() == 0 {
                post == pre
            } else {
                commit_set(
                    pre,
                    post,
                    pre.entries@[pre.current_index as int].0@,
                    trimmed(pre.input_buffer@),
                )
            }
        },
        KeyCode::Esc => post == InteractiveMode { mode: Mode::List, ..pre },
        KeyCode::Char(c) => buffer_now(pre, post, pre.input_buffer@.push(c)),
        KeyCode::Backspace => buffer_now(
            pre,
            post,
            if pre.input_buffer@.len() > 0 {
                pre.input_buffer@.drop_last()
            } else {
                Seq::<char>::empty()
            },
        ),
        _ => post == pre,
    }
}

/// How one key press moves the state while creating a variable: enter
/// commits a buffer of the form `KEY=VALUE`, split at the first `=`,
/// both sides trimmed and non-empty; anything else is silently ignored.
pub open spec fn create_step(pre: InteractiveMode, key: KeyEvent, post: InteractiveMode) -> bool {
    match key.code {
        KeyCode::Enter => {
            let b = pre.input_buffer@;
            if !b.contains('=') {
                post == pre
            } else {
                let eq = first_index_of(b, '=');
                let k = trimmed(b.take(eq));
                let v = trimmed(b.skip(eq + 1));
                if k.len() == 0 || v.len() == 0 {
                    post == pre
                } else {
                    commit_set(pre, post, k, v)
                }
            }
        },
        KeyCode::Esc => post == InteractiveMode { mode: Mode::List, ..pre },
        KeyCode::Char(c) => buffer_now(pre, post, pre.input_buffer@.push(c)),
        KeyCode::Backspace => buffer_now(
            pre,
            post,
            if pre.input_buffer@.len() > 0 {
                pre.input_buffer@.drop_last()
            } else {
                Seq::<char>::empty()
            },
        ),
        _ => post == pre,
    }
}

impl Default for InteractiveMode {
    /// An editor over an empty store: browsing an empty list, cursor and
    /// scrolling at zero, a thirty-row window and thirty-column values.
    fn default() -> (r: Self)
        ensures
            r.inv(),
            r.mode == Mode::List,
            r.exit == false,
            r.entries@.len() == 0,
            r.current_index == 0,
            r.scroll_offset == 0,
            r.visible_options == 30,
            r.truncation_len == 30,
            r.value_scroll_offset == 0,
            r.input_buffer@ == Seq::<char>::empty(),
            r.error_message is None,
            r.store.as_map() == Map::<Seq<char>, Seq<char>>::empty(),
    {
        InteractiveMode {
            mode: Mode::List,
            exit: false,
            entries: Vec::new(),
            current_index: 0,
            scroll_offset: 0,
            visible_options: 30,
            truncation_len: 30,
            value_scroll_offset: 0,
            input_buffer: String::new(),
            error_message: None,
            store: Store::new(),
        }
    }
}

impl InteractiveMode {
    /// An editor over `store`, with its snapshot freshly read.
    pub fn init(store: Store) -> (r: Self)
        requires
            store.wf(),
        ensures
            r.inv(),
            r.mode == Mode::List,
            r.exit == false,
            r.entries.deep_view() == store.pairs(),
            r.store == store,
            r.current_index == 0,
            r.scroll_offset == 0,
            r.visible_options == 30,
            r.truncation_len == 30,
            r.value_scroll_offset == 0,
            r.input_buffer@ == Seq::<char>::empty(),
            r.error_message is None,
    {
        let entries = store.list();
        InteractiveMode {
            mode: Mode::List,
            exit: false,
            entries,
            current_index: 0,
            scroll_offset: 0,
            visible_options: 30,
            truncation_len: 30,
            value_scroll_offset: 0,
            input_buffer: String::new(),
            error_message: None,
            store,
        }
    }

    /// Moves the cursor one row down, clamped to the last row, resetting
    /// the sideways scroll and keeping the cursor inside the window.
    pub fn down(&mut self)
        requires
            old(self).inv(),
        ensures
            final(self).inv(),
            *final(self) == nav_down(*old(self)),
    {
        if self.entries.len() > 0 && self.current_index + 1 < self.entries.len() {
            self.current_index = self.current_index + 1;
        }
        self.value_scroll_offset = 0;
        if self.current_index < self.scroll_offset {
            self.scroll_offset = self.current_index;
        } else if self.visible_options > 0 && self.current_index - self.scroll_offset
            >= self.visible_options {
            self.scroll_offset = self.current_index + 1 - self.visible_options;
        }
    }

    /// Moves the cursor one row up, stopping at the top, resetting the
    /// sideways scroll and keeping the cursor inside the window.
    pub fn up(&mut self)
        requires
            old(self).inv(),
        ensures
            final(self).inv(),
            *final(self) == nav_up(*old(self)),
    {
        if self.current_index > 0 {
            self.current_index = self.current_index - 1;
        }
        self.value_scroll_offset = 0;
        if self.current_index < self.scroll_offset {
            self.scroll_offset = self.current_index;
        } else if self.visible_options > 0 && self.current_index - self.scroll_offset
            >= self.visible_options {
            self.scroll_offset = self.current_index + 1 - self.visible_options;
        }
    }

    /// Scrolls the selected value one column back toward its start.
    pub fn scroll_value_left(&mut self)
        requires
            old(self).inv(),
        ensures
            final(self).inv(),
            *final(self) == nav_left(*old(self)),
    {
        if self.value_scroll_offset > 0 {
            self.value_scroll_offset = self.value_scroll_offset - 1;
        }
    }

    /// Scrolls the selected value one column further, stopping at its
    /// end.
    pub fn scroll_value_right(&mut self)
        requires
            old(self).inv(),
        ensures
            final(self).inv(),
            *final(self) == nav_right(*old(self)),
    {
        if self.entries.len() > 0 {
            let len = self.entries[self.current_index].1.as_str().unicode_len();
            if self.value_scroll_offset < len {
                self.value_scroll_offset = self.value_scroll_offset + 1;
            }
        }
    }

    /// Re-reads the snapshot from the store and puts the cursor and both
    /// scroll positions back at zero.
    pub fn reload(&mut self)
        requires
            old(self).inv(),
        ensures
            final(self).inv(),
            reload_rel(*old(self), *final(self)),
    {
        self.entries = self.store.list();
        self.current_index = 0;
        self.scroll_offset = 0;
        self.value_scroll_offset = 0;
    }

    /// Feeds one key press to the editor: any pending failure note is
    /// cleared, and the key is handled by whichever pane is active.
    pub fn handle_key_event(&mut self, key: KeyEvent)
        requires
            old(self).inv(),
        ensures
            final(self).inv(),
            match old(self).mode {
                Mode::List => list_step(cleared(*old(self)), key, *final(self)),
                Mode::EditKey => edit_key_step(cleared(*old(self)), key, *final(self)),
                Mode::EditValue => edit_value_step(cleared(*old(self)), key, *final(self)),
                Mode::CreateNew => create_step(cleared(*old(self)), key, *final(self)),
            },
    {
        self.error_message = None;
        match self.mode {
            Mode::List => self.handle_list_mode_keys(key),
            Mode::EditKey => self.handle_edit_key_mode_keys(key),
            Mode::EditValue => self.handle_edit_value_mode_keys(key),
            Mode::CreateNew => self.handle_create_mode_keys(key),
        }
    }

    /// Handles a key while browsing the list.
    fn handle_list_mode_keys(&mut self, key: KeyEvent)
        requires
            old(self).inv(),
            old(self).error_message is None,
            old(self).mode == Mode::List,
        ensures
            final(self).inv(),
            list_step(*old(self), key, *final(self)),
    {
        match key.code {
            KeyCode::Char(c) => {
                if key.ctrl && (c == 'q' || c == 'Q') {
                    self.exit = true;
                } else if key.ctrl && (c == 'r' || c == 'R') {
                    self.reload();
                } else if c == 'e' {
                    if self.entries.len() > 0 {
                        self.mode = Mode::EditKey;
                        self.input_buffer = self.entries[self.current_index].0.clone();
                    }
                } else if c == 'v' {
                    if self.entries.len() > 0 {
                        self.mode = Mode::EditValue;
                        self.input_buffer = self.entries[self.current_index].1.clone();
                    }
                } else if c == 'n' {
                    self.mode = Mode::CreateNew;
                    self.input_buffer = String::new();
                } else if c == 'd' {
                    if self.entries.len() > 0 {
                        let old_key = self.entries[self.current_index].0.clone();
                        let _ = delete_variable(&mut self.store, old_key.as_str());
                        self.reload();
                    }
                }
            },
            KeyCode::Down => self.down(),
            KeyCode::Up => self.up(),
            KeyCode::Left => self.scroll_value_left(),
            KeyCode::Right => self.scroll_value_right(),
            _ => {},
        }
    }

    /// Handles a key while renaming the selected variable.
    fn handle_edit_key_mode_keys(&mut self, key: KeyEvent)
        requires
            old(self).inv(),
            old(self).error_message is None,
        ensures
            final(self).inv(),
            edit_key_step(*old(self), key, *final(self)),
    {
        match key.code {
            KeyCode::Enter => {
                if self.entries.len() > 0 {
                    let new_key = trim_str(self.input_buffer.as_str());
                    if new_key.as_str().unicode_len() > 0 {
                        let old_key = self.entries[self.current_index].0.clone();
                        let old_value = self.entries[self.current_index].1.clone();
                        match set_variable(&mut self.store, new_key.as_str(), old_value.as_str()) {
                            Ok(()) => {
                                let _ = delete_variable(&mut self.store, old_key.as_str());
                                self.mode = Mode::List;
                                self.reload();
                            },
                            Err(e) => {
                                let mut m = String::from_str("Set variable failed: ");
                                m.append(e.message().as_str());
                                self.error_message = Some(m);
                            },
                        }
                    }
                }
            },
            KeyCode::Esc => {
                self.mode = Mode::List;
            },
            KeyCode::Char(c) => {
                crate::text::push_char(&mut self.input_buffer, c);
            },
            KeyCode::Backspace => {
                self.backspace();
            },
            _ => {},
        }
    }

    /// Handles a key while rewriting the selected variable's value.
    fn handle_edit_value_mode_keys(&mut self, key: KeyEvent)
        requires
            old(self).inv(),
            old(self).error_message is None,
        ensures
            final(self).inv(),
            edit_value_step(*old(self), key, *final(self)),
    {
        match key.code {
            KeyCode::Enter => {
                if self.entries.len() > 0 {
                    let k = self.entries[self.current_index].0.clone();
                    let new_value = trim_str(self.input_buffer.as_str());
                    match set_variable(&mut self.store, k.as_str(), new_value.as_str()) {
                        Ok(()) => {
                            self.mode = Mode::List;
                            self.reload();
                        },
                        Err(e) => {
                            let mut m = String::from_str("Set variable failed: ");
                            m.append(e.message().as_str());
                            self.error_message = Some(m);
                        },
                    }
                }
            },
            KeyCode::Esc => {
                self.mode = Mode::List;
            },
            KeyCode::Char(c) => {
                crate::text::push_char(&mut self.input_buffer, c);
            },
            KeyCode::Backspace => {
                self.backspace();
            },
            _ => {},
        }
    }

    /// Handles a key while creating a variable from a `KEY=VALUE` input.
    fn handle_create_mode_keys(&mut self, key: KeyEvent)
        requires
            old(self).inv(),
            old(self).error_message is None,
        ensures
            final(self).inv(),
            create_step(*old(self), key, *final(self)),
    {
        match key.code {
            KeyCode::Enter => {
                match crate::text::find_char(self.input_buffer.as_str(), '=') {
                    None => {},
                    Some(eq) => {
                        let n = self.input_buffer.as_str().unicode_len();
                        let k = trim_str(self.input_buffer.as_str().substring_char(0, eq));
                        let v = trim_str(self.input_buffer.as_str().substring_char(eq + 1, n));
                        proof {
                            assert(self.input_buffer@.subrange(0, eq as int) =~= self.input_buffer@.take(eq as int));
                            assert(self.input_buffer@.subrange(eq + 1, n as int) =~= self.input_buffer@.skip(eq + 1));
                        }
                        if k.as_str().unicode_len() > 0 && v.as_str().unicode_len() > 0 {
                            match set_variable(&mut self.store, k.as_str(), v.as_str()) {
                                Ok(()) => {
                                    self.mode = Mode::List;
                                    self.reload();
                                },
                                Err(e) => {
                                    let mut m = String::from_str("Set variable failed: ");
                                    m.append(e.message().as_str());
                                    self.error_message = Some(m);
                                },
                            }
                        }
                    },
                }
            },
            KeyCode::Esc => {
                self.mode = Mode::List;
            },
            KeyCode::Char(c) => {
                crate::text::push_char(&mut self.input_buffer, c);
            },
            KeyCode::Backspace => {
                self.backspace();
            },
            _ => {},
        }
    }

    /// The rows the list pane shows: the window of at most
    /// `visible_options` rows starting at `scroll_offset`.
    pub fn visible_window(&self) -> (r: (usize, usize))
        requires
            self.inv(),
        ensures
            r.0 == self.scroll_offset,
            r.1 == if self.scroll_offset + self.visible_options <= self.entries@.len() {
                self.scroll_offset + self.visible_options
            } else {
                self.entries@.len() as int
            },
            r.0 <= r.1 <= self.entries@.len() || self.entries@.len() == 0,
    {
        let len = self.entries.len();
        let e = if len - self.scroll_offset >= self.visible_options {
            self.scroll_offset + self.visible_options
        } else {
            len
        };
        (self.scroll_offset, e)
    }

    /// The part of the selected value the detail pane shows: from the
    /// sideways scroll position on, at most `truncation_len` characters.
    pub fn selected_value_view(&self) -> (r: String)
        requires
            self.inv(),
            self.entries@.len() > 0,
        ensures
            ({
                let v = self.entries@[self.current_index as int].1@;
                let from = self.value_scroll_offset as int;
                let to = if from + self.truncation_len <= v.len() {
                    from + self.truncation_len
                } else {
                    v.len() as int
                };
                r@ == v.subrange(from, to)
            }),
    {
        let v = self.entries[self.current_index].1.as_str();
        let n = v.unicode_len();
        let from = self.value_scroll_offset;
        let to = if n - from >= self.truncation_len {
            from + self.truncation_len
        } else {
            n
        };
        String::from_str(v.substring_char(from, to))
    }

    /// Removes the last character of the input buffer, if any.
    fn backspace(&mut self)
        requires
            old(self).inv(),
        ensures
            final(self).inv(),
            buffer_now(
                *old(self),
                *final(self),
                if old(self).input_buffer@.len() > 0 {
                    old(self).input_buffer@.drop_last()
                } else {
                    Seq::<char>::empty()
                },
            ),
    {
        let n = self.input_buffer.as_str().unicode_len();
        if n > 0 {
            let shorter = String::from_str(self.input_buffer.as_str().substring_char(0, n - 1));
            proof {
                assert(self.input_buffer@.subrange(0, n - 1) =~= self.input_buffer@.drop_last());
            }
            self.input_buffer = shorter;
        } else {
            proof {
                assert(self.input_buffer@ =~= Seq::<char>::empty());
            }
        }
    }
}

/// The cursor after `k` repeated steps down.
pub open spec fn down_index_iter(i: nat, len: nat, k: nat) -> nat
    decreases k,
{
    if k == 0 {
        i
    } else {
        down_index_iter(down_index(i, len), len, (k - 1) as nat)
    }
}

/// From any row, enough steps down land the cursor on the last row and
/// keep it there: pressing down `k` times with `k + i + 1 >= len` ends at
/// `len - 1`, and never moves past it.
pub proof fn lemma_down_iter_reaches_bottom(i: nat, len: nat, k: nat)
    requires
        len > 0,
        i < len,
        k + i + 1 >= len,
    ensures
        down_index_iter(i, len, k) == len - 1,
    decreases k,
{
    if k == 0 {
    } else {
        if i + 1 < len {
            lemma_down_iter_reaches_bottom(i + 1, len, (k - 1) as nat);
        } else {
            lemma_down_iter_reaches_bottom(i, len, (k - 1) as nat);
        }
    }
}

/// On an empty list, stepping down any number of times never moves the
/// cursor from zero, and never fails.
pub proof fn lemma_down_iter_empty(k: nat)
    ensures
        down_index_iter(0, 0, k) == 0,
    decreases k,
{
    if k > 0 {
        lemma_down_iter_empty((k - 1) as nat);
    }
}

/// A step up from the top row is a no-op: the cursor stays at zero.
pub proof fn lemma_up_at_top()
    ensures
        up_index(0) == 0,
{
}

/// The editor leaves its run loop only from the list pane: no key
/// handled in a rename, rewrite or create pane changes the leave flag.
pub proof fn lemma_edit_panes_never_exit(pre: InteractiveMode, key: KeyEvent, post: InteractiveMode)
    requires
        edit_key_step(pre, key, post) || edit_value_step(pre, key, post) || create_step(
            pre,
            key,
            post,
        ),
    ensures
        post.exit == pre.exit,
{
}

} // verus!
