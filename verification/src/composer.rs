//! Input box component of the terminal UI — the Composer.
//!
//! A multi-line text input with:
//!
//! - `Enter` to submit, `Shift+Enter` for newline
//! - History navigation (`↑` / `↓`)
//! - Cursor movement (`←` / `→` / `Home` / `End`)
//! - Word-skip with `Ctrl+←` / `Ctrl+→`
//! - `Ctrl+U` clear line, `Ctrl+W` delete word backward
//! - Slash-command detection (`/` prefix without space)
//! - Placeholder text when empty
//!
//! The editing state is modelled by [`ComposerState`]; every operation is
//! specified as a function from the state before to the state after.

use vstd::prelude::*;
use crate::key::{KeyCode, KeyEvent, Rect};
use crate::text::{
    byte_len, char_utf8_width, chars_of, contains_char, find_char_from, find_other_from,
    index_of, index_of_other, is_whitespace, last_index_of, lemma_byte_len_take_le,
    lemma_byte_len_take_next, rfind_char_end, splice, str_byte_len, string_from_chars, trim,
    trim_end, trim_end_len, trim_start, IntoText, lines, lines_of, count_char, count_char_in,
    display_width, str_display_width, copy_range, last_index_of_char_before,
};

verus! {

/// Result of processing a key event in the composer.
#[derive(Debug, Clone, PartialEq, Eq)]
pub enum ComposerAction {
    /// Continue editing — the event was consumed but nothing was submitted.
    Continue,
    /// The user submitted the input text.
    Submit(String),
}

/// The abstract editing state of a [`Composer`].
///
/// `caret` is a character index into `text`; the byte offset that
/// [`Composer::cursor`] reports is `byte_len(text.take(caret))`.
pub struct ComposerState {
    pub text: Seq<char>,
    pub caret: int,
    pub past: Seq<Seq<char>>,
    pub browsing: Option<int>,
    pub slash: bool,
}

/// Whether `s` reads as a slash command: it starts with `/` and holds no space.
pub open spec fn is_slash_text(s: Seq<char>) -> bool {
    s.len() > 0 && s[0] == '/' && !s.contains(' ')
}

/// The start of the word before caret `c`: trailing white space before the
/// caret is skipped, then the position after the last space.
pub open spec fn word_start_before(s: Seq<char>, c: int) -> int {
    last_index_of(trim_end(s.take(c)), ' ') + 1
}

/// The start of the next word after caret `c`: the rest of the current word
/// and the spaces after it are skipped.
pub open spec fn word_end_after(s: Seq<char>, c: int) -> int {
    let after = s.skip(c);
    let we = index_of(after, ' ');
    c + we + index_of_other(after.skip(we as int), ' ')
}

/// The state with `s` as text, the slash flag recomputed, caret at `c`.
pub open spec fn st_edit(m: ComposerState, s: Seq<char>, c: int) -> ComposerState {
    ComposerState { text: s, caret: c, slash: is_slash_text(s), ..m }
}

/// Inserting `t` at the caret.
pub open spec fn st_insert(m: ComposerState, t: Seq<char>) -> ComposerState {
    st_edit(m, m.text.take(m.caret) + t + m.text.skip(m.caret), m.caret + t.len())
}

/// Backspace: the character before the caret is removed.
pub open spec fn st_backspace(m: ComposerState) -> ComposerState {
    if m.caret == 0 {
        m
    } else {
        st_edit(m, m.text.take(m.caret - 1) + m.text.skip(m.caret), m.caret - 1)
    }
}

/// Delete: the character at the caret is removed.
pub open spec fn st_delete(m: ComposerState) -> ComposerState {
    if m.caret >= m.text.len() {
        m
    } else {
        st_edit(m, m.text.take(m.caret) + m.text.skip(m.caret + 1), m.caret)
    }
}

/// `Ctrl+W`: the word before the caret is removed.
pub open spec fn st_delete_word(m: ComposerState) -> ComposerState {
    if m.caret == 0 {
        m
    } else {
        let w = word_start_before(m.text, m.caret);
        st_edit(m, m.text.take(w) + m.text.skip(m.caret), w)
    }
}

/// Clearing the buffer (history is kept).
pub open spec fn st_clear(m: ComposerState) -> ComposerState {
    ComposerState { text: Seq::empty(), caret: 0, slash: false, ..m }
}

/// Submitting: the text goes to the history unless it is empty.
pub open spec fn st_submit(m: ComposerState) -> ComposerState {
    ComposerState {
        text: Seq::empty(),
        caret: 0,
        past: if m.text.len() > 0 {
            m.past.push(m.text)
        } else {
            m.past
        },
        browsing: None,
        slash: false,
    }
}

pub open spec fn st_move_left(m: ComposerState) -> ComposerState {
    if m.caret > 0 {
        ComposerState { caret: m.caret - 1, ..m }
    } else {
        m
    }
}

pub open spec fn st_move_right(m: ComposerState) -> ComposerState {
    if m.caret < m.text.len() {
        ComposerState { caret: m.caret + 1, ..m }
    } else {
        m
    }
}

pub open spec fn st_word_left(m: ComposerState) -> ComposerState {
    if m.caret == 0 {
        m
    } else {
        ComposerState { caret: word_start_before(m.text, m.caret), ..m }
    }
}

pub open spec fn st_word_right(m: ComposerState) -> ComposerState {
    if m.caret >= m.text.len() {
        m
    } else {
        ComposerState { caret: word_end_after(m.text, m.caret), ..m }
    }
}

/// Showing history entry `i`, caret at its end, the slash flag telling
/// whether that entry is a slash command.
pub open spec fn st_recall(m: ComposerState, i: int) -> ComposerState {
    ComposerState {
        browsing: Some(i),
        text: m.past[i],
        caret: m.past[i].len() as int,
        slash: is_slash_text(m.past[i]),
        ..m
    }
}

/// History navigation: `direction < 0` is older (`↑`), otherwise newer (`↓`).
pub open spec fn st_history(m: ComposerState, direction: i32) -> ComposerState {
    if m.past.len() == 0 {
        m
    } else {
        match m.browsing {
            None => if direction < 0 {
                st_recall(m, m.past.len() - 1)
            } else {
                m
            },
            Some(i) => if direction < 0 {
                if i > 0 {
                    st_recall(m, i - 1)
                } else {
                    m
                }
            } else {
                if i + 1 < m.past.len() {
                    st_recall(m, i + 1)
                } else {
                    m
                }
            },
        }
    }
}

/// The effect of a key: the next state and, for `Enter`, the submitted text.
pub open spec fn st_key(m: ComposerState, key: KeyEvent) -> (ComposerState, Option<Seq<char>>) {
    match key.code {
        KeyCode::Enter => if key.modifiers.shift {
            (st_insert(m, seq!['\n']), None)
        } else if trim(m.text).len() == 0 {
            (m, None)
        } else {
            (st_submit(m), Some(m.text))
        },
        KeyCode::Up => (st_history(m, -1i32), None),
        KeyCode::Down => (st_history(m, 1i32), None),
        KeyCode::Left => if key.modifiers.control {
            (st_word_left(m), None)
        } else {
            (st_move_left(m), None)
        },
        KeyCode::Right => if key.modifiers.control {
            (st_word_right(m), None)
        } else {
            (st_move_right(m), None)
        },
        KeyCode::Home => (ComposerState { caret: 0, ..m }, None),
        KeyCode::End => (ComposerState { caret: m.text.len() as int, ..m }, None),
        KeyCode::Char(c) => if key.modifiers.control {
            if c == 'u' {
                (st_clear(m), None)
            } else if c == 'w' {
                (st_delete_word(m), None)
            } else {
                (m, None)
            }
        } else {
            (st_insert(m, seq![c]), None)
        },
        KeyCode::Backspace => (st_backspace(m), None),
        KeyCode::Delete => (st_delete(m), None),
        _ => (m, None),
    }
}

/// Whether an action is the one the model gives: `None` is `Continue`.
pub open spec fn action_matches(a: ComposerAction, r: Option<Seq<char>>) -> bool {
    match a {
        ComposerAction::Continue => r is None,
        ComposerAction::Submit(s) => r == Some(s@),
    }
}

/// Multi-line text input component.
///
/// The composer displays a bordered input area with placeholder text when
/// empty.  The cursor is kept on a character boundary.
pub struct Composer {
    /// Current input content.
    input: String,
    /// The characters of `input`.
    chars: Vec<char>,
    /// Cursor position as a character index into `chars`.
    cursor: usize,
    /// Cursor position as a byte index into `input`.
    cursor_byte: usize,
    /// Previously submitted strings (most recent at the end).
    history: Vec<String>,
    /// Current position in history; `None` means the user is typing new input.
    history_index: Option<usize>,
    /// Whether the current input starts with `/` (no spaces yet).
    slash_command: bool,
    /// Placeholder text shown when the input is empty.
    placeholder: String,
}

impl Composer {
    /// The abstract editing state.
    pub closed spec fn state(&self) -> ComposerState {
        ComposerState {
            text: self.chars@,
            caret: self.cursor as int,
            past: self.history@.map_values(|h: String| h@),
            browsing: match self.history_index {
                Some(i) => Some(i as int),
                None => None,
            },
            slash: self.slash_command,
        }
    }

    /// The placeholder text.
    pub closed spec fn hint(&self) -> Seq<char> {
        self.placeholder@
    }

    /// The caret lies within the text, the byte cursor matches it, and a
    /// history position names an entry.
    closed spec fn core_wf(&self) -> bool {
        &&& self.input@ == self.chars@
        &&& self.cursor <= self.chars@.len()
        &&& self.cursor_byte == byte_len(self.chars@.take(self.cursor as int))
        &&& (self.history_index matches Some(i) ==> i < self.history@.len())
    }

    /// Internal consistency: the above, and the slash flag tells whether the
    /// text is a slash command.
    pub closed spec fn wf(&self) -> bool {
        &&& self.core_wf()
        &&& self.slash_command == is_slash_text(self.chars@)
    }

    /// What a well-formed composer's state satisfies: it is valid (see
    /// [`state_valid`]), so the caret lies within the text and the byte
    /// cursor is a character boundary of the content.
    pub proof fn lemma_state_valid(&self)
        requires
            self.wf(),
        ensures
            state_valid(self.state()),
    {
    }

    /// Create a new `Composer` with the default placeholder.
    pub fn new() -> (c: Self)
        ensures
            c.wf(),
            c.state().text.len() == 0,
            c.state().caret == 0,
            c.state().past.len() == 0,
            c.state().browsing is None,
            !c.state().slash,
            c.hint() == " 输入消息... (/help 查看命令)"@,
    {
        let c = Composer {
            input: String::new(),
            chars: Vec::new(),
            cursor: 0,
            cursor_byte: 0,
            history: Vec::new(),
            history_index: None,
            slash_command: false,
            placeholder: " 输入消息... (/help 查看命令)".to_owned(),
        };
        proof {
            assert(c.chars@.take(0) =~= Seq::<char>::empty());
            assert(c.history@.map_values(|h: String| h@) =~= Seq::<Seq<char>>::empty());
        }
        c
    }

    /// Create a `Composer` with a custom placeholder.
    pub fn with_placeholder<P: IntoText>(placeholder: P) -> (c: Self)
        ensures
            c.wf(),
            c.state().text.len() == 0,
            c.state().caret == 0,
            c.state().past.len() == 0,
            c.state().browsing is None,
            !c.state().slash,
            c.hint() == placeholder.text_view(),
    {
        let mut s = Self::new();
        s.placeholder = placeholder.into_text();
        s
    }

    /// The current input content.
    pub fn content(&self) -> (r: &str)
        requires
            self.wf(),
        ensures
            r@ == self.state().text,
            state_valid(self.state()),
    {
        self.input.as_str()
    }

    /// The placeholder text shown when the input is empty.
    pub fn placeholder(&self) -> (r: &str)
        ensures
            r@ == self.hint(),
    {
        self.placeholder.as_str()
    }

    /// Whether the current input is a slash command (starts with `/` and
    /// holds no space).
    pub fn is_slash_command(&self) -> (b: bool)
        ensures
            b == self.state().slash,
            self.wf() ==> b == is_slash_text(self.state().text),
    {
        self.slash_command
    }

    /// The input history (previous submissions).
    pub fn history(&self) -> (r: &[String])
        ensures
            r@.map_values(|h: String| h@) == self.state().past,
    {
        self.history.as_slice()
    }

    /// The current position in the history, `None` while typing new input.
    pub fn history_index(&self) -> (r: Option<usize>)
        ensures
            match r {
                Some(i) => self.state().browsing == Some(i as int),
                None => self.state().browsing is None,
            },
    {
        self.history_index
    }

    /// The current cursor position (byte index).
    pub fn cursor(&self) -> (r: usize)
        requires
            self.wf(),
        ensures
            r == byte_len(self.state().text.take(self.state().caret)),
            state_valid(self.state()),
            r <= byte_len(self.state().text),
    {
        proof {
            lemma_byte_len_take_le(self.chars@, self.cursor as int);
        }
        self.cursor_byte
    }

    /// Byte offset of character index `k`, given the byte length of the text.
    fn byte_offset(chars: &Vec<char>, k: usize, total: usize) -> (r: usize)
        requires
            k <= chars@.len(),
            total == byte_len(chars@),
        ensures
            r == byte_len(chars@.take(k as int)),
    {
        let mut acc: usize = 0;
        let mut i: usize = 0;
        proof {
            assert(chars@.take(0) =~= Seq::<char>::empty());
        }
        while i < k
            invariant
                i <= k <= chars@.len(),
                total == byte_len(chars@),
                acc == byte_len(chars@.take(i as int)),
            decreases k - i,
        {
            proof {
                lemma_byte_len_take_next(chars@, i as int);
                lemma_byte_len_take_le(chars@, i + 1);
            }
            acc = acc + char_utf8_width(chars[i]);
            i += 1;
        }
        acc
    }

    /// Install `chars` as the text with the caret at `cursor`.
    fn set_text(&mut self, chars: Vec<char>, cursor: usize)
        requires
            cursor <= chars@.len(),
            old(self).history_index matches Some(i) ==> i < old(self).history@.len(),
        ensures
            final(self).core_wf(),
            final(self).chars@ == chars@,
            final(self).cursor == cursor,
            final(self).history == old(self).history,
            final(self).history_index == old(self).history_index,
            final(self).slash_command == old(self).slash_command,
            final(self).placeholder == old(self).placeholder,
    {
        let input = string_from_chars(chars.as_slice());
        let total = str_byte_len(input.as_str());
        let cb = Self::byte_offset(&chars, cursor, total);
        self.input = input;
        self.chars = chars;
        self.cursor = cursor;
        self.cursor_byte = cb;
    }

    /// Move the caret to character index `k` of the current text.
    fn set_caret(&mut self, k: usize)
        requires
            old(self).wf(),
            k <= old(self).chars@.len(),
        ensures
            final(self).wf(),
            final(self).state() == (ComposerState { caret: k as int, ..old(self).state() }),
            final(self).placeholder == old(self).placeholder,
    {
        let total = str_byte_len(self.input.as_str());
        let cb = Self::byte_offset(&self.chars, k, total);
        self.cursor = k;
        self.cursor_byte = cb;
    }

    /// Move the cursor to byte offset `pos` if it falls on a character
    /// boundary of the content; otherwise leave it where it is.
    pub fn set_cursor(&mut self, pos: usize)
        requires
            old(self).wf(),
        ensures
            final(self).wf(),
            final(self).hint() == old(self).hint(),
            final(self).state().text == old(self).state().text,
            final(self).state().past == old(self).state().past,
            final(self).state().browsing == old(self).state().browsing,
            final(self).state().slash == old(self).state().slash,
            if exists|k: int|
                0 <= k <= old(self).state().text.len() && byte_len(
                    #[trigger] old(self).state().text.take(k),
                ) == pos {
                byte_len(final(self).state().text.take(final(self).state().caret)) == pos
            } else {
                final(self).state().caret == old(self).state().caret
            },
    {
        let total = str_byte_len(self.input.as_str());
        let mut acc: usize = 0;
        let mut i: usize = 0;
        proof {
            assert(self.chars@.take(0) =~= Seq::<char>::empty());
        }
        while i < self.chars.len() && acc < pos
            invariant
                i <= self.chars@.len(),
                total == byte_len(self.chars@),
                acc == byte_len(self.chars@.take(i as int)),
                forall|k: int| 0 <= k < i ==> byte_len(#[trigger] self.chars@.take(k)) < pos,
            decreases self.chars@.len() - i,
        {
            proof {
                lemma_byte_len_take_next(self.chars@, i as int);
                lemma_byte_len_take_le(self.chars@, i + 1);
            }
            acc = acc + char_utf8_width(self.chars[i]);
            i += 1;
        }
        if acc == pos {
            self.cursor = i;
            self.cursor_byte = acc;
            proof {
                assert(self.state().text == self.chars@);
                assert(self.state().caret == i as int);
                assert(byte_len(self.state().text.take(self.state().caret)) == pos);
            }
        } else {
            proof {
                assert forall|k: int|
                    0 <= k <= self.chars@.len() implies byte_len(
                        #[trigger] self.chars@.take(k),
                    ) != pos by {
                    if k > i {
                        Self::lemma_prefix_grows(self.chars@, i as int, k);
                    }
                }
            }
        }
    }

    /// Byte lengths of prefixes grow with the prefix.
    proof fn lemma_prefix_grows(s: Seq<char>, i: int, k: int)
        requires
            0 <= i < k <= s.len(),
        ensures
            byte_len(s.take(i)) < byte_len(s.take(k)),
        decreases k - i,
    {
        lemma_byte_len_take_next(s, k - 1);
        if i < k - 1 {
            Self::lemma_prefix_grows(s, i, k - 1);
        }
    }

    /// Recompute the slash-command flag from the current input.
    fn update_slash_state(&mut self)
        requires
            old(self).core_wf(),
        ensures
            final(self).wf(),
            final(self).state() == (ComposerState {
                slash: is_slash_text(old(self).state().text),
                ..old(self).state()
            }),
            final(self).placeholder == old(self).placeholder,
    {
        let s = self.chars.len() > 0 && self.chars[0] == '/' && !contains_char(
            self.chars.as_slice(),
            ' ',
        );
        self.slash_command = s;
    }

    /// Submit the current input, clearing the buffer and adding it to history.
    ///
    /// Empty strings are **not** added to history.
    pub fn submit(&mut self) -> (content: String)
        requires
            old(self).wf(),
        ensures
            final(self).wf(),
            content@ == old(self).state().text,
            final(self).state() == st_submit(old(self).state()),
            final(self).hint() == old(self).hint(),
    {
        let content = self.input.clone();
        let ghost old_state = self.state();
        if self.chars.len() > 0 {
            let saved = self.input.clone();
            self.history.push(saved);
        }
        self.history_index = None;
        self.slash_command = false;
        self.set_text(Vec::new(), 0);
        proof {
            assert(self.state().past =~= st_submit(old_state).past);
            assert(self.state().text =~= st_submit(old_state).text);
        }
        content
    }

    fn insert_chars(&mut self, t: &[char])
        requires
            old(self).wf(),
        ensures
            final(self).wf(),
            final(self).state() == st_insert(old(self).state(), t@),
            final(self).placeholder == old(self).placeholder,
    {
        let new_chars = splice(self.chars.as_slice(), self.cursor, self.cursor, t);
        let n = new_chars.len();
        let c = self.cursor + t.len();
        self.set_text(new_chars, c);
        self.update_slash_state();
    }

    /// Insert text at the cursor position (from typing, paste, or autocomplete).
    pub fn insert_text(&mut self, text: &str)
        requires
            old(self).wf(),
        ensures
            final(self).wf(),
            final(self).state() == st_insert(old(self).state(), text@),
            final(self).hint() == old(self).hint(),
    {
        let t = chars_of(text);
        self.insert_chars(t.as_slice());
    }

    /// Delete the character **before** the cursor (Backspace).
    pub fn backspace(&mut self)
        requires
            old(self).wf(),
        ensures
            final(self).wf(),
            final(self).state() == st_backspace(old(self).state()),
            final(self).hint() == old(self).hint(),
    {
        if self.cursor == 0 {
            return;
        }
        let prev = self.cursor - 1;
        let new_chars = splice(self.chars.as_slice(), prev, self.cursor, &[]);
        proof {
            assert(new_chars@ =~= self.chars@.take(prev as int) + self.chars@.skip(
                self.cursor as int,
            ));
        }
        self.set_text(new_chars, prev);
        self.update_slash_state();
    }

    /// Delete the character **at** the cursor (forward Delete).
    pub fn delete(&mut self)
        requires
            old(self).wf(),
        ensures
            final(self).wf(),
            final(self).state() == st_delete(old(self).state()),
            final(self).hint() == old(self).hint(),
    {
        if self.cursor >= self.chars.len() {
            return;
        }
        let c = self.cursor;
        let new_chars = splice(self.chars.as_slice(), c, c + 1, &[]);
        proof {
            assert(new_chars@ =~= self.chars@.take(c as int) + self.chars@.skip(c + 1));
        }
        self.set_text(new_chars, c);
        self.update_slash_state();
    }

    /// Start of the word before the cursor.
    fn word_start(&self) -> (w: usize)
        requires
            self.wf(),
        ensures
            w == word_start_before(self.state().text, self.state().caret),
            w <= self.cursor,
    {
        let t = trim_end_len(self.chars.as_slice(), self.cursor);
        let w = rfind_char_end(self.chars.as_slice(), ' ', t);
        proof {
            assert(self.chars@.take(t as int) =~= self.chars@.take(self.cursor as int).take(
                t as int,
            ));
        }
        w
    }

    /// Delete the word before the cursor (`Ctrl+W`).
    pub fn delete_word_backward(&mut self)
        requires
            old(self).wf(),
        ensures
            final(self).wf(),
            final(self).state() == st_delete_word(old(self).state()),
            final(self).hint() == old(self).hint(),
    {
        if self.cursor == 0 {
            return;
        }
        let w = self.word_start();
        let new_chars = splice(self.chars.as_slice(), w, self.cursor, &[]);
        proof {
            assert(new_chars@ =~= self.chars@.take(w as int) + self.chars@.skip(
                self.cursor as int,
            ));
        }
        self.set_text(new_chars, w);
        self.update_slash_state();
    }

    /// Clear the entire input buffer.
    pub fn clear(&mut self)
        requires
            old(self).wf(),
        ensures
            final(self).wf(),
            final(self).state() == st_clear(old(self).state()),
            final(self).hint() == old(self).hint(),
    {
        self.slash_command = false;
        self.set_text(Vec::new(), 0);
    }

    fn move_left(&mut self)
        requires
            old(self).wf(),
        ensures
            final(self).wf(),
            final(self).state() == st_move_left(old(self).state()),
            final(self).placeholder == old(self).placeholder,
    {
        if self.cursor > 0 {
            let k = self.cursor - 1;
            self.set_caret(k);
        }
    }

    fn move_right(&mut self)
        requires
            old(self).wf(),
        ensures
            final(self).wf(),
            final(self).state() == st_move_right(old(self).state()),
            final(self).placeholder == old(self).placeholder,
    {
        if self.cursor < self.chars.len() {
            let k = self.cursor + 1;
            self.set_caret(k);
        }
    }

    /// Jump to the start of the previous word (or the start of the line).
    fn move_word_left(&mut self)
        requires
            old(self).wf(),
        ensures
            final(self).wf(),
            final(self).state() == st_word_left(old(self).state()),
            final(self).placeholder == old(self).placeholder,
    {
        if self.cursor == 0 {
            return;
        }
        let w = self.word_start();
        self.set_caret(w);
    }

    /// Jump to the start of the next word (or the end of the line).
    fn move_word_right(&mut self)
        requires
            old(self).wf(),
        ensures
            final(self).wf(),
            final(self).state() == st_word_right(old(self).state()),
            final(self).placeholder == old(self).placeholder,
    {
        if self.cursor >= self.chars.len() {
            return;
        }
        let c = self.cursor;
        let we = find_char_from(self.chars.as_slice(), ' ', c);
        let se = find_other_from(self.chars.as_slice(), ' ', we);
        proof {
            let after = self.chars@.skip(c as int);
            assert(after.skip(we - c) =~= self.chars@.skip(we as int));
        }
        self.set_caret(se);
    }

    /// Navigate history: `-1` = older (up), `+1` = newer (down).
    ///
    /// When the user presses `↑` from a fresh input, the current draft is
    /// replaced by the most recent history entry.  Pressing `↓` at the
    /// newest entry does nothing.
    fn navigate_history(&mut self, direction: i32)
        requires
            old(self).wf(),
        ensures
            final(self).wf(),
            final(self).state() == st_history(old(self).state(), direction),
            final(self).placeholder == old(self).placeholder,
    {
        if self.history.len() == 0 {
            return;
        }
        let n = self.history.len();
        let new_idx: usize;
        match self.history_index {
            None => {
                if direction < 0 {
                    new_idx = n - 1;
                } else {
                    return;
                }
            },
            Some(idx) => {
                if direction < 0 {
                    if idx > 0 {
                        new_idx = idx - 1;
                    } else {
                        return;
                    }
                } else {
                    if idx + 1 < n {
                        new_idx = idx + 1;
                    } else {
                        return;
                    }
                }
            },
        }
        let entry = chars_of(self.history[new_idx].as_str());
        let len = entry.len();
        self.history_index = Some(new_idx);
        self.set_text(entry, len);
        self.update_slash_state();
    }

    /// Process a key event and return the resulting action.
    ///
    /// Most events are consumed internally and produce
    /// [`ComposerAction::Continue`].  Only `Enter` (without `Shift`) on input
    /// that is not all white space produces [`ComposerAction::Submit`].
    pub fn handle_key(&mut self, key: KeyEvent) -> (a: ComposerAction)
        requires
            old(self).wf(),
        ensures
            final(self).wf(),
            final(self).state() == st_key(old(self).state(), key).0,
            action_matches(a, st_key(old(self).state(), key).1),
            final(self).hint() == old(self).hint(),
    {
        match key.code {
            KeyCode::Enter => {
                if key.modifiers.shift {
                    self.insert_chars(&['\n']);
                    proof {
                        assert(seq!['\n'] =~= (&['\n'])@);
                    }
                    ComposerAction::Continue
                } else {
                    if self.is_blank() {
                        ComposerAction::Continue
                    } else {
                        let content = self.submit();
                        ComposerAction::Submit(content)
                    }
                }
            },
            KeyCode::Up => {
                self.navigate_history(-1);
                ComposerAction::Continue
            },
            KeyCode::Down => {
                self.navigate_history(1);
                ComposerAction::Continue
            },
            KeyCode::Left => {
                if key.modifiers.control {
                    self.move_word_left();
                } else {
                    self.move_left();
                }
                ComposerAction::Continue
            },
            KeyCode::Right => {
                if key.modifiers.control {
                    self.move_word_right();
                } else {
                    self.move_right();
                }
                ComposerAction::Continue
            },
            KeyCode::Home => {
                self.set_caret(0);
                ComposerAction::Continue
            },
            KeyCode::End => {
                let n = self.chars.len();
                self.set_caret(n);
                ComposerAction::Continue
            },
            KeyCode::Char(c) => {
                if key.modifiers.control {
                    if c == 'u' {
                        self.clear();
                    } else if c == 'w' {
                        self.delete_word_backward();
                    }
                } else {
                    let one = [c];
                    self.insert_chars(&one);
                    proof {
                        assert(one@ =~= seq![c]);
                    }
                }
                ComposerAction::Continue
            },
            KeyCode::Backspace => {
                self.backspace();
                ComposerAction::Continue
            },
            KeyCode::Delete => {
                self.delete();
                ComposerAction::Continue
            },
            _ => ComposerAction::Continue,
        }
    }

    /// Rows the composer needs: its logical lines (at least one) plus the
    /// two borders.  Line wrapping is left to the renderer.
    pub fn desired_height(&self, _width: u16) -> (h: u16)
        requires
            self.wf(),
            composer_rows(self.state().text) <= u16::MAX,
        ensures
            h == composer_rows(self.state().text),
    {
        let line_count: u16 = if self.chars.len() == 0 {
            1
        } else {
            let ls = lines_of(self.chars.as_slice());
            let n = ls.len();
            proof {
                assert(ls@.map_values(|x: Vec<char>| x@).len() == ls@.len());
            }
            if n == 0 {
                1
            } else {
                n as u16
            }
        };
        line_count + 2
    }

    /// The cursor's cell inside the bordered `area`: one cell in from the
    /// border, at the display width of the text before it on its line,
    /// clamped to the area.  `None` when those coordinates do not fit in
    /// `u16` arithmetic.
    pub fn cursor_pos(&self, area: Rect) -> (r: Option<(u16, u16)>)
        requires
            self.wf(),
        ensures
            ({
                let before = self.state().text.take(self.state().caret);
                let row = cursor_row(before);
                let col = display_width(cursor_line(before)) as u16;
                r == if cursor_cell_fits(row, col, area) {
                    Some(cursor_cell(row, col, area))
                } else {
                    None
                }
            }),
    {
        let nl = count_char_in(self.chars.as_slice(), '\n', self.cursor);
        let start = last_index_of_char_before(self.chars.as_slice(), '\n', self.cursor);
        let line = copy_range(self.chars.as_slice(), start, self.cursor);
        let line_text = string_from_chars(line.as_slice());
        let w = str_display_width(line_text.as_str());
        let row = nl as u16;
        let col = w as u16;
        proof {
            let before = self.chars@.take(self.cursor as int);
            assert(line@ =~= cursor_line(before));
        }
        if area.x as u32 + 1 + col as u32 <= 0xFFFF && area.y as u32 + 1 + row as u32 <= 0xFFFF
            && area.x as u32 + area.width as u32 <= 0x10000 && area.y as u32 + area.height as u32
            <= 0x10000 {
            Some(place_cursor(row, col, area))
        } else {
            None
        }
    }

    /// Whether the input is empty once white space is trimmed.
    fn is_blank(&self) -> (b: bool)
        requires
            self.wf(),
        ensures
            b == (trim(self.state().text).len() == 0),
    {
        let n = self.chars.len();
        let e = trim_end_len(self.chars.as_slice(), n);
        proof {
            assert(self.chars@.take(n as int) =~= self.chars@);
            if e > 0 {
                let t = self.chars@.take(e as int);
                lemma_trim_end_last(self.chars@);
                lemma_trim_start_nonempty(t);
            }
        }
        e == 0
    }
}

/// Rows the composer asks for: its logical lines (at least one, counted
/// modulo 2^16 as a `u16`) plus the two borders.
pub open spec fn composer_rows(s: Seq<char>) -> int {
    let n: int = if s.len() == 0 {
        1
    } else if lines(s).len() == 0 {
        1
    } else {
        lines(s).len() as int
    };
    (n as u16) + 2
}

/// The cell a cursor at `row`/`col` of the text occupies in `area`: one cell
/// in from the border, clamped to the last column and row of the area.
pub open spec fn cursor_cell(row: u16, col: u16, area: Rect) -> (u16, u16) {
    let x = area.x + 1 + col;
    let y = area.y + 1 + row;
    let max_x = area.x + if area.width >= 1 { area.width - 1 } else { 0 };
    let max_y = area.y + if area.height >= 1 { area.height - 1 } else { 0 };
    ((if x <= max_x { x } else { max_x }) as u16, (if y <= max_y { y } else { max_y }) as u16)
}

/// Whether computing [`cursor_cell`] stays within `u16` arithmetic.
pub open spec fn cursor_cell_fits(row: u16, col: u16, area: Rect) -> bool {
    &&& area.x + 1 + col <= u16::MAX
    &&& area.y + 1 + row <= u16::MAX
    &&& area.x + area.width <= u16::MAX + 1
    &&& area.y + area.height <= u16::MAX + 1
}

/// The row of the cursor in `text` (newlines before it, as a `u16`) and the
/// text of its line up to the cursor.
pub open spec fn cursor_row(before: Seq<char>) -> u16 {
    count_char(before, '\n') as u16
}

pub open spec fn cursor_line(before: Seq<char>) -> Seq<char> {
    before.skip(last_index_of(before, '\n') + 1)
}

/// Place a cursor at `row`/`col` of the text inside the bordered `area`.
pub fn place_cursor(row: u16, col: u16, area: Rect) -> (r: (u16, u16))
    requires
        cursor_cell_fits(row, col, area),
    ensures
        r == cursor_cell(row, col, area),
{
    let x = area.x + 1 + col;
    let y = area.y + 1 + row;
    let max_x = area.x + area.width.saturating_sub(1);
    let max_y = area.y + area.height.saturating_sub(1);
    (if x <= max_x { x } else { max_x }, if y <= max_y { y } else { max_y })
}

/// The last character kept by `trim_end` is not white space.
pub proof fn lemma_trim_end_last(s: Seq<char>)
    ensures
        trim_end(s).len() > 0 ==> !is_whitespace(trim_end(s).last()),
        trim_end(s).len() <= s.len(),
    decreases s.len(),
{
    if s.len() > 0 && is_whitespace(s.last()) {
        lemma_trim_end_last(s.drop_last());
    }
}

/// Trimming the start of a sequence that ends in a non-space keeps it non-empty.
pub proof fn lemma_trim_start_nonempty(t: Seq<char>)
    requires
        t.len() > 0,
        !is_whitespace(t.last()),
    ensures
        trim_start(t).len() > 0,
    decreases t.len(),
{
    if is_whitespace(t[0]) {
        assert(t.len() > 1);
        assert(t.drop_first().last() == t.last());
        lemma_trim_start_nonempty(t.drop_first());
    }
}

/// A valid editing state: the caret lies within the text, a history
/// position names an entry, and the slash flag tells whether the text is a
/// slash command.
pub open spec fn state_valid(m: ComposerState) -> bool {
    &&& 0 <= m.caret <= m.text.len()
    &&& (m.browsing matches Some(i) ==> 0 <= i < m.past.len())
    &&& m.slash == is_slash_text(m.text)
}

proof fn lemma_last_index_of_bound(s: Seq<char>, c: char)
    ensures
        -1 <= last_index_of(s, c) < s.len(),
    decreases s.len(),
{
    if s.len() > 0 && s.last() != c {
        lemma_last_index_of_bound(s.drop_last(), c);
    }
}

proof fn lemma_index_of_other_bound(s: Seq<char>, c: char)
    ensures
        index_of_other(s, c) <= s.len(),
    decreases s.len(),
{
    if s.len() > 0 && s[0] == c {
        lemma_index_of_other_bound(s.drop_first(), c);
    }
}

/// The word before the caret starts between the text's start and the caret.
proof fn lemma_word_start_bound(s: Seq<char>, c: int)
    requires
        0 <= c <= s.len(),
    ensures
        0 <= word_start_before(s, c) <= c,
{
    lemma_trim_end_last(s.take(c));
    lemma_last_index_of_bound(trim_end(s.take(c)), ' ');
}

/// The next word starts between the caret and the text's end.
proof fn lemma_word_end_bound(s: Seq<char>, c: int)
    requires
        0 <= c <= s.len(),
    ensures
        c <= word_end_after(s, c) <= s.len(),
{
    let after = s.skip(c);
    crate::text::lemma_index_of_bound(after, ' ');
    let we = index_of(after, ' ');
    lemma_index_of_other_bound(after.skip(we as int), ' ');
}

/// Every key keeps the slash flag telling whether the text is a slash
/// command.
proof fn lemma_key_keeps_slash_flag(m: ComposerState, key: KeyEvent)
    requires
        m.slash == is_slash_text(m.text),
    ensures
        st_key(m, key).0.slash == is_slash_text(st_key(m, key).0.text),
{
    assert(!is_slash_text(Seq::<char>::empty()));
}

/// Every key keeps the caret within the text and a history position naming
/// an entry.
proof fn lemma_key_keeps_bounds(m: ComposerState, key: KeyEvent)
    requires
        state_valid(m),
    ensures
        0 <= st_key(m, key).0.caret <= st_key(m, key).0.text.len(),
        st_key(m, key).0.browsing matches Some(i) ==> 0 <= i < st_key(m, key).0.past.len(),
{
    lemma_word_start_bound(m.text, m.caret);
    lemma_word_end_bound(m.text, m.caret);
    match key.code {
        KeyCode::Char(c) => {
            if !key.modifiers.control {
                assert((m.text.take(m.caret) + seq![c] + m.text.skip(m.caret)).len() == m.text.len()
                    + 1);
            }
        },
        KeyCode::Enter => {
            assert((m.text.take(m.caret) + seq!['\n'] + m.text.skip(m.caret)).len() == m.text.len()
                + 1);
        },
        _ => {},
    }
}

/// Every key keeps the editing state valid: the caret stays within the
/// text, a history position keeps naming an entry, and the slash flag keeps
/// telling whether the text is a slash command.
pub proof fn law_keys_keep_state_valid(m: ComposerState, key: KeyEvent)
    requires
        state_valid(m),
    ensures
        state_valid(st_key(m, key).0),
{
    lemma_key_keeps_bounds(m, key);
    lemma_key_keeps_slash_flag(m, key);
}

/// Typing a character and then pressing Backspace gives back the text and
/// the caret.
pub proof fn law_backspace_undoes_insert(m: ComposerState, c: char)
    requires
        state_valid(m),
    ensures
        st_backspace(st_insert(m, seq![c])).text == m.text,
        st_backspace(st_insert(m, seq![c])).caret == m.caret,
        st_backspace(st_insert(m, seq![c])).past == m.past,
        st_backspace(st_insert(m, seq![c])).browsing == m.browsing,
{
    let t = m.text.take(m.caret) + seq![c] + m.text.skip(m.caret);
    assert(t.take(m.caret) =~= m.text.take(m.caret));
    assert(t.skip(m.caret + 1) =~= m.text.skip(m.caret));
    assert(m.text.take(m.caret) + m.text.skip(m.caret) =~= m.text);
}

/// The state after pressing Backspace `n` times.
pub open spec fn backspaces(m: ComposerState, n: nat) -> ComposerState
    decreases n,
{
    if n == 0 {
        m
    } else {
        backspaces(st_backspace(m), (n - 1) as nat)
    }
}

/// Backspace right after inserting `t` takes back its last character.
proof fn lemma_backspace_after_insert(m: ComposerState, t: Seq<char>)
    requires
        0 <= m.caret <= m.text.len(),
        t.len() > 0,
    ensures
        st_backspace(st_insert(m, t)) == st_insert(m, t.drop_last()),
{
    let a = m.text.take(m.caret);
    let b = m.text.skip(m.caret);
    let x = a + t + b;
    let k = m.caret + t.len();
    assert(x.take(k - 1) + x.skip(k) =~= a + t.drop_last() + b);
}

/// Inserting a text and then pressing Backspace once per inserted character
/// gives back the state as it was: text, caret, history and slash flag.
pub proof fn law_backspaces_undo_insert(m: ComposerState, t: Seq<char>)
    requires
        state_valid(m),
    ensures
        backspaces(st_insert(m, t), t.len()) == m,
    decreases t.len(),
{
    if t.len() == 0 {
        assert(m.text.take(m.caret) + t + m.text.skip(m.caret) =~= m.text);
    } else {
        lemma_backspace_after_insert(m, t);
        law_backspaces_undo_insert(m, t.drop_last());
        assert(backspaces(st_insert(m, t), t.len()) == backspaces(
            st_backspace(st_insert(m, t)),
            (t.len() - 1) as nat,
        ));
    }
}

/// Whether `run` is a composer followed by the composers each call of
/// `backspace` leaves (as `backspace` states them).
pub open spec fn backspace_run(run: Seq<Composer>) -> bool {
    forall|i: int|
        0 <= i < run.len() - 1 ==> (#[trigger] run[i + 1]).state() == st_backspace(run[i].state())
}

proof fn lemma_backspace_run_state(m: ComposerState, t: Seq<char>, run: Seq<Composer>, k: int)
    requires
        0 <= m.caret <= m.text.len(),
        run.len() == t.len() + 1,
        run[0].state() == st_insert(m, t),
        backspace_run(run),
        0 <= k <= t.len(),
    ensures
        run[k].state() == st_insert(m, t.take(t.len() - k)),
    decreases k,
{
    if k == 0 {
        assert(t.take(t.len() as int) =~= t);
    } else {
        lemma_backspace_run_state(m, t, run, k - 1);
        let j = k - 1;
        assert(run[j + 1].state() == st_backspace(run[j].state()));
        let u = t.take(t.len() - j);
        lemma_backspace_after_insert(m, u);
        assert(u.drop_last() =~= t.take(t.len() - k));
    }
}

/// After `insert_text(t)` on a composer reached by public calls, pressing
/// Backspace once per character of `t` (the composers after each press in
/// `run`) gives back the state before: the same content, cursor, history
/// and slash flag.
pub proof fn law_backspace_run_undoes_insert(before: Composer, t: Seq<char>, run: Seq<Composer>)
    requires
        before.wf(),
        run.len() == t.len() + 1,
        run[0].state() == st_insert(before.state(), t),
        backspace_run(run),
    ensures
        run.last().state() == before.state(),
{
    before.lemma_state_valid();
    let m = before.state();
    lemma_backspace_run_state(m, t, run, t.len() as int);
    assert(t.take(0) =~= Seq::<char>::empty());
    assert(m.text.take(m.caret) + Seq::<char>::empty() + m.text.skip(m.caret) =~= m.text);
}

/// Inserting `t` moves the byte cursor (what `cursor()` reports) on by the
/// UTF-8 length of `t`.
pub proof fn law_insert_advances_cursor(m: ComposerState, t: Seq<char>)
    requires
        state_valid(m),
    ensures
        byte_len(st_insert(m, t).text.take(st_insert(m, t).caret)) == byte_len(
            m.text.take(m.caret),
        ) + byte_len(t),
{
    let a = m.text.take(m.caret);
    let x = a + t + m.text.skip(m.caret);
    assert(x.take(m.caret + t.len()) =~= a + t);
    crate::text::lemma_byte_len_concat(a, t);
}

/// Pressing `↑` and then `↓` while an entry other than the oldest is shown
/// shows that entry again, with the caret at its end.
pub proof fn law_history_up_then_down(m: ComposerState, i: int)
    requires
        state_valid(m),
        m.browsing == Some(i),
        i > 0,
    ensures
        st_history(st_history(m, -1i32), 1i32).browsing == Some(i),
        st_history(st_history(m, -1i32), 1i32).text == m.past[i],
        st_history(st_history(m, -1i32), 1i32).caret == m.past[i].len(),
        st_history(st_history(m, -1i32), 1i32).past == m.past,
{
}

/// `Enter` on text that is empty or all white space submits nothing and
/// leaves the state as it was.
pub proof fn law_blank_enter_keeps_input(m: ComposerState, key: KeyEvent)
    requires
        key.code == KeyCode::Enter,
        !key.modifiers.shift,
        trim(m.text).len() == 0,
    ensures
        st_key(m, key) == (m, Option::<Seq<char>>::None),
{
}

/// `Enter` on text that is not blank submits exactly that text, records it
/// as the newest history entry and leaves an empty input that browses no
/// entry.
pub proof fn law_enter_submits_and_records(m: ComposerState, key: KeyEvent)
    requires
        key.code == KeyCode::Enter,
        !key.modifiers.shift,
        trim(m.text).len() > 0,
    ensures
        st_key(m, key).1 == Some(m.text),
        st_key(m, key).0.past == m.past.push(m.text),
        st_key(m, key).0.text.len() == 0,
        st_key(m, key).0.caret == 0,
        st_key(m, key).0.browsing is None,
{
}

impl Default for Composer {
    fn default() -> (c: Self)
        ensures
            c.wf(),
            c.state().text.len() == 0,
            c.state().caret == 0,
            c.state().past.len() == 0,
            c.state().browsing is None,
            !c.state().slash,
            c.hint() == " 输入消息... (/help 查看命令)"@,
    {
        Self::new()
    }
}

} // verus!
