//! The todo screen itself: the ordered store of items, the interaction
//! mode, the input buffer and the browse cursor, together with the state
//! machine that interprets key presses and applies intents.

use vstd::prelude::*;
use crate::mode::{Mode, Key, Action};
use crate::input_buffer::{InputBuffer, BufferView, buffer_wf, spec_apply_key, lemma_apply_key_wf};
use crate::codec;

verus! {

/// One todo: a single short text title, immutable once created.
pub struct TodoItem {
    title: String,
}

impl View for TodoItem {
    type V = Seq<char>;

    closed spec fn view(&self) -> Seq<char> {
        self.title@
    }
}

impl TodoItem {
    pub fn new(title: String) -> (r: Self)
        ensures
            r@ == title@,
    {
        TodoItem { title }
    }

    /// The item's title.
    pub fn title(&self) -> (r: &String)
        ensures
            r@ == self@,
    {
        &self.title
    }
}

/// The mathematical state of the screen: the active mode, the ordered
/// titles of the store, the input buffer, and the browse cursor row.
pub struct ScreenView {
    pub mode: Mode,
    pub titles: Seq<Seq<char>>,
    pub buffer: BufferView,
    pub cursor_row: int,
}

/// A screen is well formed when its buffer is well formed and the cursor
/// row lies inside `[0, len-1]` for a non-empty store, and rests at 0 for
/// an empty one.
pub open spec fn screen_wf(s: ScreenView) -> bool {
    &&& buffer_wf(s.buffer)
    &&& 0 <= s.cursor_row
    &&& (s.titles.len() == 0 ==> s.cursor_row == 0)
    &&& (s.titles.len() > 0 ==> s.cursor_row < s.titles.len())
}

/// The transition table: which intent a key press raises in each mode.
/// A key outside the table raises none and is ignored. In `Editing`,
/// every key other than `Enter` and `Esc` is forwarded to the buffer
/// editor and raises a redraw.
pub open spec fn key_intent(mode: Mode, key: Key) -> Option<Action> {
    match mode {
        Mode::Normal => match key {
            Key::Char(c) => if c == 'i' {
                Some(Action::EnterCommandMode)
            } else if c == 'v' {
                Some(Action::EnterBrowseMode)
            } else if c == 'h' {
                Some(Action::EnterHelpMode)
            } else {
                None
            },
            _ => None,
        },
        Mode::Editing => match key {
            Key::Enter => Some(Action::AddTodo),
            Key::Esc => Some(Action::ExitCurrentMode),
            _ => Some(Action::Refresh),
        },
        Mode::Browse => match key {
            Key::Char(c) => if c == 'j' {
                Some(Action::BrowseListDown)
            } else if c == 'k' {
                Some(Action::BrowseListUp)
            } else {
                None
            },
            Key::Esc => Some(Action::ExitCurrentMode),
            _ => None,
        },
        Mode::Help => match key {
            Key::Char(c) => if c == 'h' {
                Some(Action::ExitCurrentMode)
            } else {
                None
            },
            _ => None,
        },
    }
}

/// What handling a key does to the state before its intent is dispatched:
/// in `Editing`, keys other than `Enter` and `Esc` edit the buffer;
/// everything else leaves the state as it is.
pub open spec fn spec_handle_key(s: ScreenView, key: Key) -> ScreenView {
    if s.mode == Mode::Editing && key != Key::Enter && key != Key::Esc {
        ScreenView {
            mode: s.mode,
            titles: s.titles,
            buffer: spec_apply_key(s.buffer, key),
            cursor_row: s.cursor_row,
        }
    } else {
        s
    }
}

/// How one intent mutates the state, given the active mode. Every intent
/// has a defined effect; an intent not meaningful in the active mode
/// changes nothing.
pub open spec fn spec_update(s: ScreenView, a: Action) -> ScreenView {
    match s.mode {
        Mode::Normal => match a {
            Action::EnterCommandMode => ScreenView { mode: Mode::Editing, ..s },
            Action::EnterBrowseMode => ScreenView { mode: Mode::Browse, ..s },
            Action::EnterHelpMode => ScreenView { mode: Mode::Help, ..s },
            _ => s,
        },
        Mode::Editing => match a {
            Action::ExitCurrentMode => ScreenView { mode: Mode::Normal, ..s },
            Action::AddTodo => ScreenView {
                mode: Mode::Editing,
                titles: s.titles.push(s.buffer.text),
                buffer: BufferView { text: Seq::empty(), cursor: 0 },
                cursor_row: s.cursor_row,
            },
            _ => s,
        },
        Mode::Browse => match a {
            Action::ExitCurrentMode => ScreenView { mode: Mode::Normal, ..s },
            Action::BrowseListUp => ScreenView {
                cursor_row: if s.cursor_row > 0 {
                    s.cursor_row - 1
                } else {
                    0
                },
                ..s
            },
            Action::BrowseListDown => ScreenView {
                cursor_row: if s.cursor_row + 1 < s.titles.len() {
                    s.cursor_row + 1
                } else {
                    s.cursor_row
                },
                ..s
            },
            _ => s,
        },
        Mode::Help => match a {
            Action::ExitCurrentMode => ScreenView { mode: Mode::Normal, ..s },
            _ => s,
        },
    }
}

/// One full step of the event loop: the key is handled, and the intent it
/// raised, if any, is dispatched back into `update` — atomically, as the
/// harness does between redraws.
pub open spec fn spec_step(s: ScreenView, key: Key) -> ScreenView {
    let s1 = spec_handle_key(s, key);
    match key_intent(s.mode, key) {
        Some(a) => spec_update(s1, a),
        None => s1,
    }
}

/// The state after a whole sequence of key presses.
pub open spec fn apply_keys(s: ScreenView, keys: Seq<Key>) -> ScreenView
    decreases keys.len(),
{
    if keys.len() == 0 {
        s
    } else {
        apply_keys(spec_step(s, keys[0]), keys.drop_first())
    }
}

/// One step keeps the screen well formed.
pub proof fn lemma_step_wf(s: ScreenView, key: Key)
    requires
        screen_wf(s),
    ensures
        screen_wf(spec_step(s, key)),
{
    lemma_apply_key_wf(s.buffer, key);
}

/// Any sequence of key presses keeps the screen well formed; in
/// particular, whenever the store is non-empty the cursor row stays
/// within `[0, len-1]`, however many `j`/`k` presses arrive.
pub proof fn lemma_keys_keep_wf(s: ScreenView, keys: Seq<Key>)
    requires
        screen_wf(s),
    ensures
        screen_wf(apply_keys(s, keys)),
        apply_keys(s, keys).titles.len() > 0 ==> 0 <= apply_keys(s, keys).cursor_row
            < apply_keys(s, keys).titles.len(),
    decreases keys.len(),
{
    if keys.len() > 0 {
        lemma_step_wf(s, keys[0]);
        lemma_keys_keep_wf(spec_step(s, keys[0]), keys.drop_first());
    }
}

/// With an empty store, a `j` or `k` press in Browse mode changes nothing:
/// the displayed selection stays where it was.
pub proof fn lemma_empty_store_browse_inert(s: ScreenView, key: Key)
    requires
        screen_wf(s),
        s.mode == Mode::Browse,
        s.titles.len() == 0,
        key == Key::Char('j') || key == Key::Char('k'),
    ensures
        spec_step(s, key) == s,
{
}

/// A key outside the transition table of the active mode raises no intent
/// and leaves the whole state unchanged.
pub proof fn lemma_unlisted_key_changes_nothing(s: ScreenView, key: Key)
    requires
        key_intent(s.mode, key) is None,
    ensures
        spec_step(s, key) == s,
{
}

/// The mode changes only through the table's mode keys: entering a mode
/// from `Normal` via `i`, `v` or `h`, or leaving one via `Esc` (`h` in
/// `Help`). Every other key press leaves the mode where it was.
pub proof fn lemma_mode_changes_only_by_table(s: ScreenView, key: Key)
    ensures
        spec_step(s, key).mode != s.mode ==> {
            ||| s.mode == Mode::Normal && (key == Key::Char('i') || key == Key::Char('v')
                || key == Key::Char('h'))
            ||| s.mode == Mode::Editing && key == Key::Esc
            ||| s.mode == Mode::Browse && key == Key::Esc
            ||| s.mode == Mode::Help && key == Key::Char('h')
        },
{
}

/// The store only ever grows, and only by a commit: after any single key
/// press the titles are unchanged unless the screen was in `Editing` and
/// the key was `Enter`, in which case the buffer's text is appended.
pub proof fn lemma_store_changes_only_on_commit(s: ScreenView, key: Key)
    ensures
        spec_step(s, key).titles == s.titles || (s.mode == Mode::Editing && key == Key::Enter
            && spec_step(s, key).titles == s.titles.push(s.buffer.text)),
{
}

/// The store after appending each title of `ts` in turn to a store that
/// already holds `init`.
pub open spec fn store_after_appends(init: Seq<Seq<char>>, ts: Seq<Seq<char>>) -> Seq<Seq<char>>
    decreases ts.len(),
{
    if ts.len() == 0 {
        init
    } else {
        store_after_appends(init.push(ts[0]), ts.drop_first())
    }
}

/// Appending a sequence of titles extends the store by exactly those
/// titles: after N appends from an empty store the store has length N and
/// holds the titles in insertion order.
pub proof fn lemma_append_sequence(init: Seq<Seq<char>>, ts: Seq<Seq<char>>)
    ensures
        store_after_appends(init, ts) == init + ts,
        store_after_appends(init, ts).len() == init.len() + ts.len(),
    decreases ts.len(),
{
    if ts.len() == 0 {
        assert(init + ts =~= init);
    } else {
        lemma_append_sequence(init.push(ts[0]), ts.drop_first());
        assert(init.push(ts[0]) + ts.drop_first() =~= init + ts);
    }
}

/// A failure to read the persisted store back at startup: the source was
/// present but not in the persisted form.
#[derive(Clone, Copy, PartialEq, Eq, Structural, Debug)]
pub enum LoadError {
    Malformed,
}

/// The todo screen component: the store, the input buffer, the active
/// mode, and the browse cursor row.
pub struct Home {
    todos: Vec<TodoItem>,
    input: InputBuffer,
    input_mode: Mode,
    cursor_row: usize,
}

impl View for Home {
    type V = ScreenView;

    closed spec fn view(&self) -> ScreenView {
        ScreenView {
            mode: self.input_mode,
            titles: self.todos@.map_values(|t: TodoItem| t@),
            buffer: self.input@,
            cursor_row: self.cursor_row as int,
        }
    }
}

impl Home {
    /// A fresh screen: `Normal` mode, empty store, empty buffer, cursor
    /// row at the top.
    pub fn new() -> (r: Self)
        ensures
            r@.mode == Mode::Normal,
            r@.titles == Seq::<Seq<char>>::empty(),
            r@.buffer.text == Seq::<char>::empty(),
            r@.buffer.cursor == 0,
            r@.cursor_row == 0,
            screen_wf(r@),
    {
        let r = Home {
            todos: Vec::new(),
            input: InputBuffer::new(),
            input_mode: Mode::Normal,
            cursor_row: 0,
        };
        proof {
            assert(r@.titles =~= Seq::<Seq<char>>::empty());
        }
        r
    }

    /// The active mode.
    pub fn mode(&self) -> (r: Mode)
        ensures
            r == self@.mode,
    {
        self.input_mode
    }

    /// How many items the store holds.
    pub fn todo_count(&self) -> (r: usize)
        ensures
            r == self@.titles.len(),
    {
        self.todos.len()
    }

    /// The title of the item at a display position.
    pub fn title_at(&self, i: usize) -> (r: &String)
        requires
            i < self@.titles.len(),
        ensures
            r@ == self@.titles[i as int],
    {
        self.todos[i].title()
    }

    /// The browse cursor row.
    pub fn cursor_row(&self) -> (r: usize)
        ensures
            r == self@.cursor_row,
    {
        self.cursor_row
    }

    /// The live text of the input buffer.
    pub fn input_value(&self) -> (r: String)
        ensures
            r@ == self@.buffer.text,
    {
        self.input.value()
    }

    /// The cursor position inside the input buffer.
    pub fn input_cursor(&self) -> (r: usize)
        ensures
            r == self@.buffer.cursor,
    {
        self.input.cursor()
    }

    /// The horizontal scroll of the input buffer for a visible width.
    pub fn input_scroll(&self, width: usize) -> (r: usize)
        ensures
            r == if self@.buffer.cursor > width {
                self@.buffer.cursor - width
            } else {
                0int
            },
    {
        self.input.visual_scroll(width)
    }

    /// Appends one item at the end of the store; always succeeds, and
    /// touches nothing else.
    pub fn append(&mut self, title: String)
        requires
            screen_wf(old(self)@),
        ensures
            final(self)@.titles == old(self)@.titles.push(title@),
            final(self)@.mode == old(self)@.mode,
            final(self)@.buffer == old(self)@.buffer,
            final(self)@.cursor_row == old(self)@.cursor_row,
            screen_wf(final(self)@),
    {
        let ghost before = self@.titles;
        self.todos.push(TodoItem::new(title));
        proof {
            assert(self@.titles =~= before.push(title@));
        }
    }

    /// Interprets one key press in the active mode: edits the buffer when
    /// the mode is `Editing` and the key is forwarded to it, and returns
    /// the intent the key raises, if any, for the harness to dispatch.
    pub fn handle_key_events(&mut self, key: Key) -> (r: Option<Action>)
        requires
            screen_wf(old(self)@),
        ensures
            final(self)@ == spec_handle_key(old(self)@, key),
            r == key_intent(old(self)@.mode, key),
            screen_wf(final(self)@),
    {
        match self.input_mode {
            Mode::Normal => match key {
                Key::Char(c) => {
                    if c == 'i' {
                        Some(Action::EnterCommandMode)
                    } else if c == 'v' {
                        Some(Action::EnterBrowseMode)
                    } else if c == 'h' {
                        Some(Action::EnterHelpMode)
                    } else {
                        None
                    }
                },
                _ => None,
            },
            Mode::Editing => match key {
                Key::Enter => Some(Action::AddTodo),
                Key::Esc => Some(Action::ExitCurrentMode),
                _ => {
                    self.input.apply_key(key);
                    Some(Action::Refresh)
                },
            },
            Mode::Browse => match key {
                Key::Char(c) => {
                    if c == 'j' {
                        Some(Action::BrowseListDown)
                    } else if c == 'k' {
                        Some(Action::BrowseListUp)
                    } else {
                        None
                    }
                },
                Key::Esc => Some(Action::ExitCurrentMode),
                _ => None,
            },
            Mode::Help => match key {
                Key::Char(c) => {
                    if c == 'h' {
                        Some(Action::ExitCurrentMode)
                    } else {
                        None
                    }
                },
                _ => None,
            },
        }
    }

    /// Applies one intent to the state, atomically: a commit appends the
    /// buffer as a new item and clears it, the browse intents move the
    /// cursor row with clamping, the mode intents switch modes, and an
    /// intent not meaningful in the active mode changes nothing.
    pub fn update(&mut self, action: Action) -> (r: Option<Action>)
        requires
            screen_wf(old(self)@),
        ensures
            final(self)@ == spec_update(old(self)@, action),
            screen_wf(final(self)@),
            r is None,
    {
        match self.input_mode {
            Mode::Normal => match action {
                Action::EnterCommandMode => {
                    self.input_mode = Mode::Editing;
                },
                Action::EnterBrowseMode => {
                    self.input_mode = Mode::Browse;
                },
                Action::EnterHelpMode => {
                    self.input_mode = Mode::Help;
                },
                _ => {},
            },
            Mode::Editing => match action {
                Action::ExitCurrentMode => {
                    self.input_mode = Mode::Normal;
                },
                Action::AddTodo => {
                    let ghost before = self@.titles;
                    let title = self.input.value();
                    self.input.reset();
                    self.todos.push(TodoItem::new(title));
                    proof {
                        assert(self@.titles =~= before.push(old(self)@.buffer.text));
                    }
                },
                _ => {},
            },
            Mode::Browse => match action {
                Action::ExitCurrentMode => {
                    self.input_mode = Mode::Normal;
                },
                Action::BrowseListUp => {
                    if self.cursor_row > 0 {
                        self.cursor_row = self.cursor_row - 1;
                    }
                },
                Action::BrowseListDown => {
                    let len = self.todos.len();
                    proof {
                        assert(self@.titles.len() == self.todos@.len());
                    }
                    if len > 0 && self.cursor_row < len - 1 {
                        self.cursor_row = self.cursor_row + 1;
                    }
                },
                _ => {},
            },
            Mode::Help => match action {
                Action::ExitCurrentMode => {
                    self.input_mode = Mode::Normal;
                },
                _ => {},
            },
        }
        None
    }

    /// Populates the store once at startup from the persisted form.
    /// `None` stands for a missing source and is benign: the store is
    /// left as it is and the call succeeds. A present but malformed
    /// source is a fatal parse failure: the state is untouched and the
    /// error is surfaced. A well-formed source appends its titles to the
    /// store in their persisted order.
    pub fn buildup(&mut self, source: Option<&str>) -> (r: Result<(), LoadError>)
        requires
            screen_wf(old(self)@),
        ensures
            r is Ok <==> (source is None || codec::parse_store(source->Some_0@) is Some),
            source is None ==> final(self)@ == old(self)@,
            r is Err ==> final(self)@ == old(self)@,
            source matches Some(src) ==> (codec::parse_store(src@) matches Some(ts) ==> {
                &&& final(self)@.titles == old(self)@.titles + ts
                &&& final(self)@.mode == old(self)@.mode
                &&& final(self)@.buffer == old(self)@.buffer
                &&& final(self)@.cursor_row == old(self)@.cursor_row
            }),
            screen_wf(final(self)@),
    {
        match source {
            None => Ok(()),
            Some(src) => match codec::parse(src) {
                None => Err(LoadError::Malformed),
                Some(titles) => {
                    let ghost ts = titles.deep_view();
                    let ghost before = self@.titles;
                    let n = titles.len();
                    proof {
                        assert(ts.len() == titles@.len());
                        assert(before + ts.take(0) =~= before);
                    }
                    let mut i: usize = 0;
                    while i < n
                        invariant
                            n == titles@.len(),
                            i <= n,
                            ts == titles.deep_view(),
                            self@.titles == before + ts.take(i as int),
                            self@.mode == old(self)@.mode,
                            self@.buffer == old(self)@.buffer,
                            self@.cursor_row == old(self)@.cursor_row,
                        decreases n - i,
                    {
                        let ghost mid = self@.titles;
                        self.todos.push(TodoItem::new(titles[i].clone()));
                        proof {
                            assert(ts[i as int] == titles@[i as int]@);
                            assert(self@.titles =~= mid.push(ts[i as int]));
                            assert(before + ts.take(i + 1 as int) =~= (before + ts.take(
                                i as int,
                            )).push(ts[i as int]));
                        }
                        i = i + 1;
                    }
                    proof {
                        assert(ts.len() == titles@.len());
                        assert(before + ts.take(n as int) =~= before + ts);
                    }
                    Ok(())
                },
            },
        }
    }

    /// The store in its persisted form, ready to be written out once at
    /// shutdown: a JSON array of `title` objects in display order.
    pub fn teardown(&self) -> (r: String)
        ensures
            r@ == codec::enc_store(self@.titles),
    {
        let n = self.todos.len();
        let mut titles: Vec<String> = Vec::new();
        let mut i: usize = 0;
        while i < n
            invariant
                n == self.todos@.len(),
                i <= n,
                titles.deep_view() == self@.titles.take(i as int),
            decreases n - i,
        {
            let ghost mid = titles.deep_view();
            titles.push(self.todos[i].title().clone());
            proof {
                assert(titles.deep_view() =~= mid.push(self@.titles[i as int]));
                assert(self@.titles.take(i + 1 as int) =~= self@.titles.take(i as int).push(
                    self@.titles[i as int],
                ));
            }
            i = i + 1;
        }
        proof {
            assert(self@.titles.take(n as int) =~= self@.titles);
        }
        codec::encode(&titles)
    }
}

impl Default for Home {
    /// Same as `Home::new`: a fresh screen in `Normal` mode.
    fn default() -> (r: Self)
        ensures
            r@.mode == Mode::Normal,
            r@.titles == Seq::<Seq<char>>::empty(),
            r@.buffer.text == Seq::<char>::empty(),
            r@.buffer.cursor == 0,
            r@.cursor_row == 0,
            screen_wf(r@),
    {
        Home::new()
    }
}

} // verus!
