//! Terminal-side application state: screens, input editing and the local
//! copies of the room data that the rendering layer draws.
//!
//! The state machine is exact: every key press maps to one transition
//! ([`handle_key_rel`]), and every editing method states precisely how the
//! input buffers and cursors change.  All rendering and event I/O lives
//! outside; this module only transforms plain values.

use vstd::prelude::*;

use crate::chat::{lines_view, log_lines_rec, msgs_fmt_len, msgs_view, wrap_message, wrapped};
use crate::textutil::string_from_chars;
use crate::users::OnlineUsers;
use vstd::utf8::{encode_scalar, encode_utf8};

verus! {

/// Which screen is shown.
#[derive(Clone, Copy, PartialEq, Eq, Structural, Debug)]
pub enum CurrentScreen {
    Login,
    Main,
    Quit,
}

/// Interaction mode of the main screen.
#[derive(Clone, Copy, PartialEq, Eq, Structural, Debug)]
pub enum Mode {
    Main,
    Searching,
    Inputing,
}

/// Which input field the cursor edits.
#[derive(Clone, Copy, PartialEq, Eq, Structural, Debug)]
pub enum Inserting {
    Username,
    Room,
    Chat,
}

/// One key press, as the event layer hands it to the application state.
#[derive(Clone, Copy, PartialEq, Eq, Structural, Debug)]
pub enum KeyInput {
    Esc,
    Tab,
    Enter,
    Backspace,
    Left,
    Right,
    Char(char),
    Other,
}

/// The application state.  Input buffers hold characters; cursor indices
/// count characters, never bytes.
pub struct App {
    pub current_screen: CurrentScreen,
    pub mode: Option<Mode>,
    pub username: Option<String>,
    pub room_name: Option<String>,
    pub chat_input: Vec<char>,
    pub chat_input_index: usize,
    pub network_messages: Vec<(String, String)>,
    pub chat_messages: (usize, Vec<String>),
    pub chat_index: usize,
    pub max_chat_index: usize,
    pub exit: bool,
    pub online_users: OnlineUsers,
    pub follow_chat: bool,
    pub inserting: Inserting,
    pub username_input: Vec<char>,
    pub room_input: Vec<char>,
    pub username_index: usize,
    pub room_index: usize,
}

/// A cursor position clamped to the field length.
pub open spec fn clamp_cursor_spec(pos: int, len: int) -> int {
    if pos <= len {
        pos
    } else {
        len
    }
}

/// Where the cursor lands after one step left: one below the old position,
/// saturating at zero, clamped to the field length.
pub open spec fn cursor_left_spec(idx: int, len: int) -> int {
    clamp_cursor_spec(
        if idx > 0 {
            idx - 1
        } else {
            0
        },
        len,
    )
}

/// Where the cursor lands after one step right: one above the old position,
/// clamped to the field length.
pub open spec fn cursor_right_spec(idx: int, len: int) -> int {
    clamp_cursor_spec(idx + 1, len)
}

/// The field the login screen's Tab key switches to.
pub open spec fn switch_spec(i: Inserting) -> Inserting {
    match i {
        Inserting::Username => Inserting::Room,
        Inserting::Room => Inserting::Username,
        Inserting::Chat => Inserting::Chat,
    }
}

impl App {
    /// Cursor indices stay inside their fields, and on the login screen the
    /// cursor never edits the chat field.
    pub open spec fn wf(self) -> bool {
        &&& self.username_index <= self.username_input@.len()
        &&& self.room_index <= self.room_input@.len()
        &&& self.chat_input_index <= self.chat_input@.len()
        &&& (self.current_screen is Login ==> !(self.inserting is Chat))
    }

    /// The characters of the given input field.
    pub open spec fn input_of(self, ins: Inserting) -> Seq<char> {
        match ins {
            Inserting::Username => self.username_input@,
            Inserting::Room => self.room_input@,
            Inserting::Chat => self.chat_input@,
        }
    }

    /// The cursor index of the given input field.
    pub open spec fn index_of(self, ins: Inserting) -> usize {
        match ins {
            Inserting::Username => self.username_index,
            Inserting::Room => self.room_index,
            Inserting::Chat => self.chat_input_index,
        }
    }
}

/// `b` equals `a` except possibly in the cursor index of `ins`.
pub open spec fn same_but_index(a: App, b: App, ins: Inserting) -> bool {
    match ins {
        Inserting::Username => b == (App { username_index: b.username_index, ..a }),
        Inserting::Room => b == (App { room_index: b.room_index, ..a }),
        Inserting::Chat => b == (App { chat_input_index: b.chat_input_index, ..a }),
    }
}

/// `b` equals `a` except possibly in the input buffer and cursor index of
/// `ins`.
pub open spec fn same_but_field(a: App, b: App, ins: Inserting) -> bool {
    match ins {
        Inserting::Username => b == (App {
            username_input: b.username_input,
            username_index: b.username_index,
            ..a
        }),
        Inserting::Room => b == (App { room_input: b.room_input, room_index: b.room_index, ..a }),
        Inserting::Chat => b == (App {
            chat_input: b.chat_input,
            chat_input_index: b.chat_input_index,
            ..a
        }),
    }
}

/// Effect of one step left in field `ins`.
pub open spec fn cursor_left_rel(a: App, ins: Inserting, b: App) -> bool {
    &&& same_but_index(a, b, ins)
    &&& b.index_of(ins) as int == cursor_left_spec(
        a.index_of(ins) as int,
        a.input_of(ins).len() as int,
    )
}

/// Effect of one step right in field `ins`.
pub open spec fn cursor_right_rel(a: App, ins: Inserting, b: App) -> bool {
    &&& same_but_index(a, b, ins)
    &&& b.index_of(ins) as int == cursor_right_spec(
        a.index_of(ins) as int,
        a.input_of(ins).len() as int,
    )
}

/// Effect of typing `c` into field `ins`: the character enters at the
/// cursor and the cursor moves one step right.
pub open spec fn enter_char_rel(a: App, c: char, ins: Inserting, b: App) -> bool {
    &&& same_but_field(a, b, ins)
    &&& b.input_of(ins) == a.input_of(ins).insert(a.index_of(ins) as int, c)
    &&& b.index_of(ins) as int == a.index_of(ins) + 1
}

/// Effect of backspace in field `ins`: with the cursor at the left edge
/// nothing changes, otherwise the character left of the cursor goes and the
/// cursor moves one step left.
pub open spec fn delete_char_rel(a: App, ins: Inserting, b: App) -> bool {
    if a.index_of(ins) == 0 {
        b == a
    } else {
        &&& same_but_field(a, b, ins)
        &&& b.input_of(ins) == a.input_of(ins).remove(a.index_of(ins) - 1)
        &&& b.index_of(ins) as int == a.index_of(ins) - 1
    }
}

/// Effect of submitting the login form: the typed username and room name
/// become the session's, and the main screen opens.
pub open spec fn submit_login_rel(a: App, b: App) -> bool {
    &&& b == (App {
        username: b.username,
        room_name: b.room_name,
        current_screen: CurrentScreen::Main,
        mode: Some(Mode::Main),
        ..a
    })
    &&& b.username matches Some(u) && u@ == a.username_input@
    &&& b.room_name matches Some(r) && r@ == a.room_input@
}

/// The full key-press transition: what one key does on each screen.
/// Unlisted keys change nothing.
pub open spec fn handle_key_rel(a: App, key: KeyInput, b: App) -> bool {
    match a.current_screen {
        CurrentScreen::Main => match key {
            KeyInput::Esc => b == (App { current_screen: CurrentScreen::Quit, ..a }),
            _ => b == a,
        },
        CurrentScreen::Quit => match key {
            KeyInput::Char(c) => if c == 'y' {
                b == (App { exit: true, ..a })
            } else if c == 'n' {
                b == (App { current_screen: CurrentScreen::Main, ..a })
            } else {
                b == a
            },
            KeyInput::Esc => b == (App { current_screen: CurrentScreen::Main, ..a }),
            _ => b == a,
        },
        CurrentScreen::Login => match key {
            KeyInput::Esc => b == (App { exit: true, ..a }),
            KeyInput::Tab => b == (App { inserting: switch_spec(a.inserting), ..a }),
            KeyInput::Enter => submit_login_rel(a, b),
            KeyInput::Char(c) => if a.inserting is Chat {
                b == a
            } else {
                enter_char_rel(a, c, a.inserting, b)
            },
            KeyInput::Backspace => delete_char_rel(a, a.inserting, b),
            KeyInput::Left => cursor_left_rel(a, a.inserting, b),
            KeyInput::Right => cursor_right_rel(a, a.inserting, b),
            KeyInput::Other => b == a,
        },
    }
}

impl App {
    /// The state a freshly started session shows: the login screen, every
    /// buffer empty.
    pub fn new() -> (r: App)
        ensures
            r.wf(),
            r.current_screen is Login,
            r.mode is None,
            r.username is None,
            r.room_name is None,
            r.chat_input@ == Seq::<char>::empty(),
            r.chat_input_index == 0,
            r.network_messages@ == Seq::<(String, String)>::empty(),
            r.chat_messages.0 == 0,
            r.chat_messages.1@ == Seq::<String>::empty(),
            r.chat_index == 0,
            r.max_chat_index == 0,
            !r.exit,
            r.online_users.wf(),
            r.online_users.count() == 0,
            !r.follow_chat,
            r.inserting is Username,
            r.username_input@ == Seq::<char>::empty(),
            r.room_input@ == Seq::<char>::empty(),
            r.username_index == 0,
            r.room_index == 0,
    {
        App {
            current_screen: CurrentScreen::Login,
            mode: None,
            username: None,
            room_name: None,
            chat_input: Vec::new(),
            chat_input_index: 0,
            network_messages: Vec::new(),
            chat_messages: (0, Vec::new()),
            chat_index: 0,
            max_chat_index: 0,
            exit: false,
            online_users: OnlineUsers::new(),
            follow_chat: false,
            inserting: Inserting::Username,
            username_input: Vec::new(),
            room_input: Vec::new(),
            username_index: 0,
            room_index: 0,
        }
    }

    /// Marks the session for shutdown.
    pub fn exit(&mut self)
        ensures
            *final (self) == (App { exit: true, ..*old(self) }),
    {
        self.exit = true;
    }

    /// Switches the login screen's cursor between the username and room
    /// fields.
    pub fn switch_inserting_mode(&mut self)
        ensures
            *final (self) == (App { inserting: switch_spec(old(self).inserting), ..*old(self) }),
    {
        match &self.inserting {
            Inserting::Username => self.inserting = Inserting::Room,
            Inserting::Room => self.inserting = Inserting::Username,
            Inserting::Chat => {},
        }
    }

    /// Submits the login form.
    pub fn submit_login(&mut self)
        requires
            old(self).wf(),
        ensures
            final (self).wf(),
            submit_login_rel(*old(self), *final (self)),
    {
        self.username = Some(string_from_chars(&self.username_input));
        self.room_name = Some(string_from_chars(&self.room_input));
        self.current_screen = CurrentScreen::Main;
        self.mode = Some(Mode::Main);
    }

    /// Scrolls the chat view one line up, stopping at the top.
    pub fn scroll_up(&mut self)
        ensures
            *final (self) == (App { chat_index: final (self).chat_index, ..*old(self) }),
            final (self).chat_index as int == if old(self).chat_index > 0 {
                old(self).chat_index - 1
            } else {
                0
            },
    {
        self.chat_index = if self.chat_index > 0 {
            self.chat_index - 1
        } else {
            0
        };
    }

    /// Scrolls the chat view one line down, stopping at the last scrollable
    /// line.
    pub fn scroll_down(&mut self)
        requires
            old(self).chat_index < usize::MAX,
        ensures
            *final (self) == (App { chat_index: final (self).chat_index, ..*old(self) }),
            final (self).chat_index as int == clamp_cursor_spec(
                old(self).chat_index + 1,
                old(self).max_chat_index as int,
            ),
    {
        let moved = self.chat_index + 1;
        self.chat_index = if moved > self.max_chat_index {
            self.max_chat_index
        } else {
            moved
        };
    }

    /// Clamps a prospective cursor position to the length of the field.
    pub fn clamp_cursor(&self, new_cursor_pos: usize, inserting: Inserting) -> (r: usize)
        ensures
            r as int == clamp_cursor_spec(
                new_cursor_pos as int,
                self.input_of(inserting).len() as int,
            ),
    {
        let count = match inserting {
            Inserting::Username => self.username_input.len(),
            Inserting::Room => self.room_input.len(),
            Inserting::Chat => self.chat_input.len(),
        };
        if new_cursor_pos <= count {
            new_cursor_pos
        } else {
            count
        }
    }

    /// Moves the cursor of the given field one step left.
    pub fn move_cursor_left(&mut self, inserting: Inserting)
        requires
            old(self).wf(),
        ensures
            final (self).wf(),
            cursor_left_rel(*old(self), inserting, *final (self)),
    {
        match inserting {
            Inserting::Room => {
                let moved = if self.room_index > 0 {
                    self.room_index - 1
                } else {
                    0
                };
                self.room_index = self.clamp_cursor(moved, inserting);
            },
            Inserting::Username => {
                let moved = if self.username_index > 0 {
                    self.username_index - 1
                } else {
                    0
                };
                self.username_index = self.clamp_cursor(moved, inserting);
            },
            Inserting::Chat => {
                let moved = if self.chat_input_index > 0 {
                    self.chat_input_index - 1
                } else {
                    0
                };
                self.chat_input_index = self.clamp_cursor(moved, inserting);
            },
        }
    }

    /// Moves the cursor of the given field one step right.
    pub fn move_cursor_right(&mut self, inserting: Inserting)
        requires
            old(self).wf(),
            old(self).index_of(inserting) < usize::MAX,
        ensures
            final (self).wf(),
            cursor_right_rel(*old(self), inserting, *final (self)),
    {
        match inserting {
            Inserting::Room => {
                let moved = self.room_index + 1;
                self.room_index = self.clamp_cursor(moved, inserting);
            },
            Inserting::Username => {
                let moved = self.username_index + 1;
                self.username_index = self.clamp_cursor(moved, inserting);
            },
            Inserting::Chat => {
                let moved = self.chat_input_index + 1;
                self.chat_input_index = self.clamp_cursor(moved, inserting);
            },
        }
    }

    /// Puts the cursor of the given field at its left edge.
    pub fn reset_cursor(&mut self, inserting: Inserting)
        requires
            old(self).wf(),
        ensures
            final (self).wf(),
            same_but_index(*old(self), *final (self), inserting),
            final (self).index_of(inserting) == 0,
    {
        match inserting {
            Inserting::Room => self.room_index = 0,
            Inserting::Username => self.username_index = 0,
            Inserting::Chat => self.chat_input_index = 0,
        }
    }

    /// Types one character at the cursor of the given field.
    pub fn enter_char(&mut self, new_char: char, inserting: Inserting)
        requires
            old(self).wf(),
            old(self).input_of(inserting).len() < usize::MAX,
        ensures
            final (self).wf(),
            enter_char_rel(*old(self), new_char, inserting, *final (self)),
    {
        match inserting {
            Inserting::Room => {
                self.room_input.insert(self.room_index, new_char);
                self.room_index = self.room_index + 1;
            },
            Inserting::Chat => {
                self.chat_input.insert(self.chat_input_index, new_char);
                self.chat_input_index = self.chat_input_index + 1;
            },
            Inserting::Username => {
                self.username_input.insert(self.username_index, new_char);
                self.username_index = self.username_index + 1;
            },
        }
    }

    /// Deletes the character left of the cursor of the given field, if any.
    pub fn delete_char(&mut self, inserting: Inserting)
        requires
            old(self).wf(),
        ensures
            final (self).wf(),
            delete_char_rel(*old(self), inserting, *final (self)),
    {
        match inserting {
            Inserting::Room => {
                if self.room_index != 0 {
                    self.room_input.remove(self.room_index - 1);
                    self.room_index = self.room_index - 1;
                }
            },
            Inserting::Username => {
                if self.username_index != 0 {
                    self.username_input.remove(self.username_index - 1);
                    self.username_index = self.username_index - 1;
                }
            },
            Inserting::Chat => {
                if self.chat_input_index != 0 {
                    self.chat_input.remove(self.chat_input_index - 1);
                    self.chat_input_index = self.chat_input_index - 1;
                }
            },
        }
    }

    /// The byte offset of the cursor of the given field in the field's
    /// UTF-8 encoding.
    pub fn byte_index(&self, inserting: Inserting) -> (r: usize)
        requires
            self.wf(),
            self.input_of(inserting).len() <= usize::MAX / 4,
        ensures
            r as nat == encode_utf8(
                self.input_of(inserting).take(self.index_of(inserting) as int),
            ).len(),
    {
        let (input, idx): (&Vec<char>, usize) = match inserting {
            Inserting::Room => (&self.room_input, self.room_index),
            Inserting::Chat => (&self.chat_input, self.chat_input_index),
            Inserting::Username => (&self.username_input, self.username_index),
        };
        let ghost s = self.input_of(inserting);
        let mut total: usize = 0;
        let mut j: usize = 0;
        while j < idx
            invariant
                j <= idx,
                idx <= input@.len(),
                input@ == s,
                s.len() <= usize::MAX / 4,
                total <= 4 * j,
                total as nat == encode_utf8(s.take(j as int)).len(),
            decreases idx - j,
        {
            let c = input[j];
            let u = c as u32;
            let w: usize = if u < 0x80 {
                1
            } else if u < 0x800 {
                2
            } else if u < 0x10000 {
                3
            } else {
                4
            };
            proof {
                vstd::utf8::char_is_scalar(c);
                assert(encode_scalar(u).len() == w);
                assert(s.take(j + 1) =~= s.take(j as int) + seq![s[j as int]]);
                crate::textutil::lemma_encode_utf8_concat(s.take(j as int), seq![s[j as int]]);
                assert(seq![c].len() == 1 && seq![c][0] == c);
                assert(seq![c].drop_first() =~= Seq::<char>::empty());
                assert(encode_utf8(seq![c]) =~= encode_scalar(u) + encode_utf8(
                    seq![c].drop_first(),
                ));
                assert(encode_utf8(s.take(j + 1)).len() == encode_utf8(s.take(j as int)).len()
                    + w);
            }
            total = total + w;
            j += 1;
        }
        total
    }

    /// The terminal cell the cursor of the given field occupies, for an
    /// input box whose top-left corner is at `(area_x, area_y)`: one cell
    /// right of the border per cursor step, one row below the border.
    pub fn cursor_pos(&self, area_x: u16, area_y: u16, inserting: Inserting) -> (r: (u16, u16))
        requires
            area_x + self.index_of(inserting) + 1 <= u16::MAX,
            area_y < u16::MAX,
        ensures
            r.0 == area_x + self.index_of(inserting) + 1,
            r.1 == area_y + 1,
    {
        let idx = match inserting {
            Inserting::Username => self.username_index,
            Inserting::Room => self.room_index,
            Inserting::Chat => self.chat_input_index,
        };
        (area_x + (idx as u16) + 1, area_y + 1)
    }

    /// Applies one key press to the state: the exact transition is
    /// [`handle_key_rel`].
    pub fn handle_key(&mut self, key: KeyInput)
        requires
            old(self).wf(),
            old(self).index_of(old(self).inserting) < usize::MAX,
            old(self).input_of(old(self).inserting).len() < usize::MAX,
        ensures
            final (self).wf(),
            handle_key_rel(*old(self), key, *final (self)),
    {
        match self.current_screen {
            CurrentScreen::Main => match key {
                KeyInput::Esc => {
                    self.current_screen = CurrentScreen::Quit;
                },
                _ => {},
            },
            CurrentScreen::Quit => match key {
                KeyInput::Char(c) => {
                    if c == 'y' {
                        self.exit();
                    } else if c == 'n' {
                        self.current_screen = CurrentScreen::Main;
                    }
                },
                KeyInput::Esc => {
                    self.current_screen = CurrentScreen::Main;
                },
                _ => {},
            },
            CurrentScreen::Login => match key {
                KeyInput::Esc => {
                    self.exit();
                },
                KeyInput::Tab => {
                    self.switch_inserting_mode();
                },
                KeyInput::Enter => {
                    self.submit_login();
                },
                KeyInput::Char(c) => {
                    let ins = self.inserting;
                    match ins {
                        Inserting::Username => self.enter_char(c, ins),
                        Inserting::Room => self.enter_char(c, ins),
                        Inserting::Chat => {},
                    }
                },
                KeyInput::Backspace => {
                    let ins = self.inserting;
                    self.delete_char(ins);
                },
                KeyInput::Left => {
                    let ins = self.inserting;
                    self.move_cursor_left(ins);
                },
                KeyInput::Right => {
                    let ins = self.inserting;
                    self.move_cursor_right(ins);
                },
                KeyInput::Other => {},
            },
        }
    }

    /// Rebuilds the whole chat-line cache for the given window width,
    /// numbering lines from one across all logged messages.
    pub fn create_lines(&mut self, window_width: usize)
        requires
            window_width >= 1,
            msgs_fmt_len(msgs_view(old(self).network_messages@)) + 1 <= usize::MAX / 64,
        ensures
            *final (self) == (App { chat_messages: final (self).chat_messages, ..*old(self) }),
            final (self).chat_messages.0 == window_width,
            lines_view(final (self).chat_messages.1@) == log_lines_rec(
                msgs_view(old(self).network_messages@),
                window_width as nat,
                1,
            ).0,
    {
        let ghost mv = msgs_view(self.network_messages@);
        let ghost target = log_lines_rec(mv, window_width as nat, 1);
        let mut lines: Vec<String> = Vec::new();
        let mut i: usize = 1;
        let n = self.network_messages.len();
        let mut k: usize = 0;
        proof {
            assert(mv.skip(0) =~= mv);
            assert(lines_view(lines@) =~= Seq::<Seq<char>>::empty());
            assert(lines_view(lines@) + log_lines_rec(mv, window_width as nat, 1).0 =~= target.0);
        }
        while k < n
            invariant
                k <= n,
                n == self.network_messages@.len(),
                *self == *old(self),
                window_width >= 1,
                mv == msgs_view(self.network_messages@),
                target == log_lines_rec(mv, window_width as nat, 1),
                msgs_fmt_len(mv) + 1 <= usize::MAX / 64,
                1 <= i,
                i + msgs_fmt_len(mv.skip(k as int)) <= 1 + msgs_fmt_len(mv),
                lines_view(lines@) + log_lines_rec(mv.skip(k as int), window_width as nat, i as nat).0
                    == target.0,
                log_lines_rec(mv.skip(k as int), window_width as nat, i as nat).1 == target.1,
            decreases n - k,
        {
            let ghost kk = k as int;
            let ghost rem = mv.skip(kk);
            proof {
                assert(rem[0] == mv[kk]);
                assert(rem.drop_first() =~= mv.skip(kk + 1));
                assert(mv[kk].0 == self.network_messages@[kk].0@);
                assert(mv[kk].1 == self.network_messages@[kk].1@);
                assert(msgs_fmt_len(rem) == mv[kk].0.len() + mv[kk].1.len() + 3 + msgs_fmt_len(
                    rem.drop_first(),
                ));
                assert(usize::MAX / 64 <= usize::MAX / 2);
            }
            let user = &self.network_messages[k].0;
            let text = &self.network_messages[k].1;
            let (mut ls, ni) = wrap_message(user, text, window_width, i);
            let ghost olv = lines_view(lines@);
            lines.append(&mut ls);
            proof {
                let first = wrapped(mv[kk].0, mv[kk].1, window_width as nat, i as nat);
                assert(lines_view(lines@) =~= olv + first.0);
                let rest = log_lines_rec(rem.drop_first(), window_width as nat, first.1);
                assert(log_lines_rec(rem, window_width as nat, i as nat).0 =~= first.0 + rest.0);
                assert((olv + first.0) + rest.0 =~= olv + (first.0 + rest.0));
            }
            i = ni;
            k += 1;
        }
        proof {
            assert(mv.skip(n as int) =~= Seq::<(Seq<char>, Seq<char>)>::empty());
            assert(lines_view(lines@) + Seq::<Seq<char>>::empty() =~= lines_view(lines@));
        }
        self.chat_messages = (window_width, lines);
    }

    /// Logs one message and appends its display lines, numbered from one,
    /// to the chat-line cache (whose width must already be set).
    pub fn add_message_to_network_and_chat(&mut self, username: String, msg: String)
        requires
            old(self).chat_messages.0 >= 1,
            username@.len() + msg@.len() + 3 <= usize::MAX / 64,
        ensures
            *final (self) == (App {
                network_messages: final (self).network_messages,
                chat_messages: final (self).chat_messages,
                ..*old(self)
            }),
            final (self).network_messages@ == old(self).network_messages@.push((username, msg)),
            final (self).chat_messages.0 == old(self).chat_messages.0,
            lines_view(final (self).chat_messages.1@) == lines_view(old(self).chat_messages.1@)
                + wrapped(username@, msg@, old(self).chat_messages.0 as nat, 1).0,
    {
        let (mut ls, _next) = wrap_message(&username, &msg, self.chat_messages.0, 1);
        let ghost lsv = lines_view(ls@);
        self.network_messages.push((username, msg));
        let ghost olv = lines_view(self.chat_messages.1@);
        self.chat_messages.1.append(&mut ls);
        proof {
            assert(lines_view(self.chat_messages.1@) =~= olv + lsv);
        }
    }
}

} // verus!
