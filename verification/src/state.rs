//! Shared room state and the verified steps of the three room tasks.
//!
//! One reader-writer lock guards each logical collection — the online-user
//! set, the message log, the chat-line cache and the presence registry — so
//! the receiver never blocks on sweep activity.  Each lock carries its
//! collection's well-formedness as its invariant: every task, and the
//! rendering layer, sees only well-formed state.  The loops themselves
//! (socket reads, queue reads, sleeping) live outside; they call
//! [`Arcs::apply_frame`] for each datagram and [`Arcs::sweep_once`] on each
//! wake.

use vstd::prelude::*;
use vstd::rwlock::{RwLock, RwLockPredicate};

use crate::chat::{lines_view, wrap_message, wrapped};
use crate::codec::{decode_frame, spec_decode};
use crate::ops::{Op, OpView};
use crate::presence::{PresenceRegistry, PRESENCE_TIMEOUT_MS, SWEEP_POLL_MS, remove_all};
use crate::users::OnlineUsers;

verus! {

/// Lock invariant of the online-user set: no duplicate names.
pub struct UsersInv;

impl RwLockPredicate<OnlineUsers> for UsersInv {
    open spec fn inv(self, v: OnlineUsers) -> bool {
        v.wf()
    }
}

/// Lock invariant of the presence registry: no duplicate names.
pub struct PresenceInv;

impl RwLockPredicate<PresenceRegistry> for PresenceInv {
    open spec fn inv(self, v: PresenceRegistry) -> bool {
        v.wf()
    }
}

/// Lock invariant of the message log: any log is admissible.
pub struct LogInv;

impl RwLockPredicate<Vec<(String, String)>> for LogInv {
    open spec fn inv(self, v: Vec<(String, String)>) -> bool {
        true
    }
}

/// Lock invariant of the chat-line cache: any cache is admissible.
pub struct ChatInv;

impl RwLockPredicate<(usize, Vec<String>)> for ChatInv {
    open spec fn inv(self, v: (usize, Vec<String>)) -> bool {
        true
    }
}

/// The shared handles of one room session: one lock per logical collection,
/// shared by the receiver, the sender, the presence sweeper and the
/// rendering layer.
pub struct Arcs {
    pub users: RwLock<OnlineUsers, UsersInv>,
    pub network_messages: RwLock<Vec<(String, String)>, LogInv>,
    pub chat_messages: RwLock<(usize, Vec<String>), ChatInv>,
    pub presence: RwLock<PresenceRegistry, PresenceInv>,
}

/// Applies a received message to the log and the chat-line cache: the pair
/// is appended to the log; its display lines, numbered after the existing
/// ones, extend the cache where the cache already has a width and the sizes
/// stay within machine bounds, and the cache stays untouched otherwise.
pub fn apply_message(
    log: &mut Vec<(String, String)>,
    chat: &mut (usize, Vec<String>),
    user: &String,
    text: &String,
)
    ensures
        final (log)@.len() == old(log)@.len() + 1,
        final (log)@.subrange(0, old(log)@.len() as int) == old(log)@,
        final (log)@.last().0@ == user@,
        final (log)@.last().1@ == text@,
        final (chat).0 == old(chat).0,
        if old(chat).0 >= 1 && user@.len() + text@.len() + 3 <= usize::MAX / 64 && old(
            chat,
        ).1@.len() < usize::MAX / 2 {
            lines_view(final (chat).1@) == lines_view(old(chat).1@) + wrapped(
                user@,
                text@,
                old(chat).0 as nat,
                (old(chat).1@.len() + 1) as nat,
            ).0
        } else {
            final (chat).1@ == old(chat).1@
        },
{
    log.push((user.clone(), text.clone()));
    proof {
        assert(final (log)@.subrange(0, old(log)@.len() as int) =~= old(log)@);
    }
    let limit = usize::MAX / 64;
    let ul = user.as_str().unicode_len();
    let tl = text.as_str().unicode_len();
    if chat.0 >= 1 && ul <= limit && tl <= limit && ul + tl + 3 <= limit && chat.1.len()
        < usize::MAX / 2 {
        let start = chat.1.len() + 1;
        let (mut ls, _next) = wrap_message(user, text, chat.0, start);
        let ghost lsv = lines_view(ls@);
        let ghost olv = lines_view(chat.1@);
        chat.1.append(&mut ls);
        proof {
            assert(lines_view(chat.1@) =~= olv + lsv);
        }
    }
}

/// Applies a received announce: the user enters the online set and the
/// presence registry gives it a fresh deadline of `now_ms` plus the
/// timeout.
pub fn apply_announce(
    users: &mut OnlineUsers,
    presence: &mut PresenceRegistry,
    name: &String,
    now_ms: u64,
)
    requires
        old(users).wf(),
        old(presence).wf(),
        now_ms + PRESENCE_TIMEOUT_MS <= u64::MAX,
    ensures
        final (users).wf(),
        final (presence).wf(),
        forall|n: Seq<char>|
            #[trigger] final (users).contains_name(n) <==> (old(users).contains_name(n) || n
                == name@),
        final (users).count() == if old(users).contains_name(name@) {
            old(users).count()
        } else {
            old(users).count() + 1
        },
        final (presence).has(name@),
        final (presence).deadline_of(name@) == now_ms + PRESENCE_TIMEOUT_MS,
        forall|n: Seq<char>|
            n != name@ ==> (#[trigger] final (presence).has(n) <==> old(presence).has(n)),
        forall|n: Seq<char>|
            n != name@ && old(presence).has(n) ==> #[trigger] final (presence).deadline_of(n)
                == old(presence).deadline_of(n),
        final (presence).count() == if old(presence).has(name@) {
            old(presence).count()
        } else {
            old(presence).count() + 1
        },
{
    users.insert(name.clone());
    presence.touch(name, now_ms);
}

/// Applies a received leave: the user leaves the online set and its
/// presence entry is deleted, whatever deadline it still had.
pub fn apply_leave(users: &mut OnlineUsers, presence: &mut PresenceRegistry, name: &String)
    requires
        old(users).wf(),
        old(presence).wf(),
    ensures
        final (users).wf(),
        final (presence).wf(),
        forall|n: Seq<char>|
            #[trigger] final (users).contains_name(n) <==> (old(users).contains_name(n) && n
                != name@),
        forall|n: Seq<char>|
            #[trigger] final (presence).has(n) <==> (old(presence).has(n) && n != name@),
{
    users.remove(name);
    presence.remove(name);
}

/// One receiver step over plain state: decodes one datagram and applies the
/// operation it carries.  Every malformed, foreign or undecryptable
/// datagram leaves all four collections exactly as they were — the loop
/// swallows it and goes on.  Returns whether an operation was applied.
pub fn receive_frame(
    frame: &[u8],
    key: &[u8],
    users: &mut OnlineUsers,
    presence: &mut PresenceRegistry,
    log: &mut Vec<(String, String)>,
    chat: &mut (usize, Vec<String>),
    now_ms: u64,
) -> (applied: bool)
    requires
        old(users).wf(),
        old(presence).wf(),
        now_ms + PRESENCE_TIMEOUT_MS <= u64::MAX,
    ensures
        final (users).wf(),
        final (presence).wf(),
        applied == (spec_decode(frame@, key@) is Some),
        match spec_decode(frame@, key@) {
            None => {
                &&& *final (users) == *old(users)
                &&& *final (presence) == *old(presence)
                &&& final (log)@ == old(log)@
                &&& *final (chat) == *old(chat)
            },
            Some(v) => match v {
                OpView::Message { user, text } => {
                    &&& *final (users) == *old(users)
                    &&& *final (presence) == *old(presence)
                    &&& final (log)@.len() == old(log)@.len() + 1
                    &&& final (log)@.subrange(0, old(log)@.len() as int) == old(log)@
                    &&& final (log)@.last().0@ == user
                    &&& final (log)@.last().1@ == text
                    &&& final (chat).0 == old(chat).0
                    &&& if old(chat).0 >= 1 && user.len() + text.len() + 3 <= usize::MAX / 64
                        && old(chat).1@.len() < usize::MAX / 2 {
                        lines_view(final (chat).1@) == lines_view(old(chat).1@) + wrapped(
                            user,
                            text,
                            old(chat).0 as nat,
                            (old(chat).1@.len() + 1) as nat,
                        ).0
                    } else {
                        final (chat).1@ == old(chat).1@
                    }
                },
                OpView::User { user } => {
                    &&& final (log)@ == old(log)@
                    &&& *final (chat) == *old(chat)
                    &&& forall|n: Seq<char>|
                        #[trigger] final (users).contains_name(n) <==> (old(
                            users,
                        ).contains_name(n) || n == user)
                    &&& final (presence).has(user)
                    &&& final (presence).deadline_of(user) == now_ms + PRESENCE_TIMEOUT_MS
                    &&& forall|n: Seq<char>|
                        n != user ==> (#[trigger] final (presence).has(n) <==> old(
                            presence,
                        ).has(n))
                },
                OpView::Leave { user } => {
                    &&& final (log)@ == old(log)@
                    &&& *final (chat) == *old(chat)
                    &&& forall|n: Seq<char>|
                        #[trigger] final (users).contains_name(n) <==> (old(
                            users,
                        ).contains_name(n) && n != user)
                    &&& forall|n: Seq<char>|
                        #[trigger] final (presence).has(n) <==> (old(presence).has(n) && n
                            != user)
                },
            },
        },
{
    let op = match decode_frame(frame, key) {
        Some(op) => op,
        None => {
            return false;
        },
    };
    match &op {
        Op::Message(_, u, t) => {
            apply_message(log, chat, u, t);
        },
        Op::User(_, u) => {
            apply_announce(users, presence, u, now_ms);
        },
        Op::Leave(_, u) => {
            apply_leave(users, presence, u);
        },
    }
    true
}

/// Copies the strings of a line cache.
fn clone_lines(v: &Vec<String>) -> (r: Vec<String>)
    ensures
        r@.len() == v@.len(),
        forall|i: int| 0 <= i < r@.len() ==> r@[i]@ == v@[i]@,
{
    let n = v.len();
    let mut r: Vec<String> = Vec::new();
    let mut i: usize = 0;
    while i < n
        invariant
            i <= n,
            n == v@.len(),
            r@.len() == i,
            forall|k: int| 0 <= k < i ==> r@[k]@ == v@[k]@,
        decreases n - i,
    {
        r.push(v[i].clone());
        i += 1;
    }
    r
}

/// Copies the pairs of a message log.
fn clone_log(v: &Vec<(String, String)>) -> (r: Vec<(String, String)>)
    ensures
        r@.len() == v@.len(),
        forall|i: int| 0 <= i < r@.len() ==> r@[i].0@ == v@[i].0@ && r@[i].1@ == v@[i].1@,
{
    let n = v.len();
    let mut r: Vec<(String, String)> = Vec::new();
    let mut i: usize = 0;
    while i < n
        invariant
            i <= n,
            n == v@.len(),
            r@.len() == i,
            forall|k: int| 0 <= k < i ==> r@[k].0@ == v@[k].0@ && r@[k].1@ == v@[k].1@,
        decreases n - i,
    {
        let u = v[i].0.clone();
        let t = v[i].1.clone();
        r.push((u, t));
        i += 1;
    }
    r
}

impl Arcs {
    /// Creates the shared state of a fresh room session: no users, no
    /// messages, no presence entries, no chat width yet.
    pub fn new() -> Arcs {
        Arcs {
            users: RwLock::new(OnlineUsers::new(), Ghost(UsersInv {  })),
            network_messages: RwLock::new(Vec::new(), Ghost(LogInv {  })),
            chat_messages: RwLock::new((0, Vec::new()), Ghost(ChatInv {  })),
            presence: RwLock::new(PresenceRegistry::new(), Ghost(PresenceInv {  })),
        }
    }

    /// One receiver step under the locks: decodes one datagram and applies
    /// it to the shared collections, taking each lock only while its
    /// collection is touched.  Malformed traffic changes nothing and is
    /// swallowed.  Returns whether an operation was applied.
    pub fn apply_frame(&self, frame: &[u8], key: &[u8], now_ms: u64) -> (applied: bool)
        requires
            now_ms + PRESENCE_TIMEOUT_MS <= u64::MAX,
        ensures
            applied == (spec_decode(frame@, key@) is Some),
    {
        let op = match decode_frame(frame, key) {
            Some(op) => op,
            None => {
                return false;
            },
        };
        match &op {
            Op::Message(_, u, t) => {
                let (mut log, log_handle) = self.network_messages.acquire_write();
                let (mut chat, chat_handle) = self.chat_messages.acquire_write();
                apply_message(&mut log, &mut chat, u, t);
                log_handle.release_write(log);
                chat_handle.release_write(chat);
            },
            Op::User(_, u) => {
                let (mut users, users_handle) = self.users.acquire_write();
                let (mut presence, presence_handle) = self.presence.acquire_write();
                apply_announce(&mut users, &mut presence, u, now_ms);
                users_handle.release_write(users);
                presence_handle.release_write(presence);
            },
            Op::Leave(_, u) => {
                let (mut users, users_handle) = self.users.acquire_write();
                let (mut presence, presence_handle) = self.presence.acquire_write();
                apply_leave(&mut users, &mut presence, u);
                users_handle.release_write(users);
                presence_handle.release_write(presence);
            },
        }
        true
    }

    /// One sweep step under the locks: evicts expired presence entries,
    /// then removes the evicted users from the online set, and returns the
    /// next wake instant.  The registry lock is released before the user
    /// lock is taken, so the receiver never waits for both at once.
    pub fn sweep_once(&self, now_ms: u64) -> (next: u64)
        requires
            now_ms + SWEEP_POLL_MS <= u64::MAX,
        ensures
            now_ms <= next <= now_ms + SWEEP_POLL_MS,
    {
        let (mut presence, presence_handle) = self.presence.acquire_write();
        let r = presence.sweep_registry(now_ms);
        proof {
            if r.1 != now_ms + SWEEP_POLL_MS {
                let n = choose|n: Seq<char>|
                    presence.has(n) && presence.deadline_of(n) == r.1;
                assert(presence.has(n));
            }
        }
        presence_handle.release_write(presence);
        let (mut users, users_handle) = self.users.acquire_write();
        remove_all(&mut users, &r.0);
        users_handle.release_write(users);
        r.1
    }

    /// A copy of the online users, for the rendering layer.
    pub fn users_snapshot(&self) -> Vec<String> {
        let read_handle = self.users.acquire_read();
        let snapshot = read_handle.borrow().to_vec();
        read_handle.release_read();
        snapshot
    }

    /// A copy of the message log.
    pub fn log_snapshot(&self) -> Vec<(String, String)> {
        let read_handle = self.network_messages.acquire_read();
        let snapshot = clone_log(read_handle.borrow());
        read_handle.release_read();
        snapshot
    }

    /// A copy of the chat-line cache and its width, for the rendering
    /// layer.
    pub fn chat_snapshot(&self) -> (usize, Vec<String>) {
        let read_handle = self.chat_messages.acquire_read();
        let width = read_handle.borrow().0;
        let lines = clone_lines(&read_handle.borrow().1);
        read_handle.release_read();
        (width, lines)
    }
}

} // verus!
