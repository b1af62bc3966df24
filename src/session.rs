use vstd::prelude::*;

use crate::frame::{read_frame, reads_as, Frame};
use crate::identity::Identity;
use crate::keyed::{as_map, keys_unique, take_key, upsert};
use crate::wire::{decimal, decimal_text, join_line, join_text, part_line, part_text, ping_line, ping_text,
    pong_line, pong_text, privmsg_line, privmsg_text, register_line, register_text, kind_of};

verus! {

/// How long the session waits before it connects again after a drop.
pub const RECONNECT_DELAY_MS: u64 = 5000;

/// Where the connection of a session stands.
#[derive(Clone, Copy, PartialEq, Eq, Structural, Debug)]
pub enum Phase {
    /// Waiting for the signal to start; no connection is opened.
    Idle,
    /// A connection is being opened.
    Connecting,
    /// The stream is open and registration has been sent.
    Connected,
    /// Waiting out the delay before the next attempt.
    Waiting,
    /// Done for good: told to stay offline, credentials rejected, or no one
    /// is listening any more.
    Stopped,
}

/// A command that the application queues for the connection.
pub enum WriteKind {
    Join { channel: String },
    Part { channel: String },
    Send { target: String, data: String },
}

/// What the session reports to the application, in protocol order.
pub enum Event {
    Connecting,
    Connected { identity: Identity },
    Join { channel: String },
    ChannelId { channel: String, room_id: String },
    UserState { channel: String, msg_id: Option<String>, badges: Vec<(String, String)> },
    Privmsg { channel: String, sender: String, data: String, msg_id: Option<String>, raw: String },
    Reconnecting { after_ms: u64 },
    InvalidCredentials,
}

/// What the driver of the session is to do next, in order.
pub enum Action {
    /// Hand this event to the application.
    Emit(Event),
    /// Open a stream to the protocol endpoint; report `Opened` or `OpenFailed`.
    Connect,
    /// Write this text to the stream and flush it.
    Write(String),
    /// Wait this many milliseconds, then report `Waited`.
    Sleep(u64),
    /// Close everything; the session will do no more.
    Stop,
}

/// What happened, as the driver of the session reports it.
pub enum Input {
    /// The start signal: `true` to go online, `false` to stay offline.
    Signal { start: bool },
    /// The stream was opened at time `now` (milliseconds).
    Opened { now: u64 },
    OpenFailed,
    WriteFailed,
    /// One line was read at time `now`.
    Received { line: String, now: u64 },
    /// Reading failed or the stream ended.
    ReadFailed,
    /// A keepalive interval passed at time `now` with no traffic.
    Quiet { now: u64 },
    /// The application queued a command.
    Command { command: WriteKind },
    /// The application dropped its command queue.
    CommandsClosed,
    /// The reconnect delay is over.
    Waited,
    /// The application stopped reading events.
    EventsClosed,
}

pub open spec fn is_write(a: Action, text: Seq<char>) -> bool {
    match a {
        Action::Write(line) => line@ == text,
        _ => false,
    }
}

pub open spec fn is_reconnecting(a: Action) -> bool {
    match a {
        Action::Emit(Event::Reconnecting { after_ms }) => after_ms == RECONNECT_DELAY_MS,
        _ => false,
    }
}

/// The actions that take a dropped connection to its next attempt.
pub open spec fn reconnect_actions(r: Seq<Action>) -> bool {
    &&& r.len() == 2
    &&& is_reconnecting(r[0])
    &&& r[1] == Action::Sleep(RECONNECT_DELAY_MS)
}

/// The actions that start a connection attempt.
pub open spec fn attempt_actions(r: Seq<Action>) -> bool {
    &&& r.len() == 2
    &&& r[0] is Emit && r[0]->Emit_0 is Connecting
    &&& r[1] is Connect
}

/// The text of a server notice that rejects our credentials.
pub open spec fn auth_failure_text(t: Seq<char>) -> bool {
    t == "Login authentication failed"@ || t == "Improperly formatted auth"@
}

/// Whether an action hands a chat message to the application.
pub open spec fn is_chat(a: Action) -> bool {
    a is Emit && a->Emit_0 is Privmsg
}

/// The ping token: whole seconds since the stream was opened.
pub open spec fn ping_token(opened_at: u64, now: u64) -> Seq<char> {
    if now >= opened_at {
        decimal_text(((now - opened_at) / 1000) as nat)
    } else {
        decimal_text(0)
    }
}

/// Registration is complete: the `Connected` event first, then a join for
/// each wanted channel in order, then the chat messages held back while
/// offline.
pub open spec fn replay_actions(before: Session, r: Seq<Action>) -> bool {
    let n = before.channel_list().len();
    let h = before.held_sends();
    &&& r.len() == 1 + n + h.len()
    &&& r[0] is Emit && r[0]->Emit_0 is Connected
    &&& forall|k: int| 0 <= k < n ==> is_write(#[trigger] r[1 + k], join_text(before.channel_list()[k]))
    &&& forall|k: int| 0 <= k < h.len() ==> is_write(#[trigger] r[1 + n + k], privmsg_text(h[k].0, h[k].1))
}

/// What every step keeps: the wanted channels, the keepalive interval and
/// the login.
pub open spec fn keeps_setup(before: Session, after: Session) -> bool {
    &&& after.channel_set() == before.channel_set()
    &&& after.channel_list() == before.channel_list()
    &&& after.keepalive() == before.keepalive()
    &&& after.login_name() == before.login_name()
    &&& after.login_token() == before.login_token()
    &&& after.wf() == before.wf()
}

/// `after` is `before` in phase `ph`, with everything else as it was.
pub open spec fn same_but_phase(before: Session, after: Session, ph: Phase) -> bool {
    &&& keeps_setup(before, after)
    &&& after.phase_of() == ph
    &&& after.held_sends() == before.held_sends()
    &&& after.server_name() == before.server_name()
    &&& after.is_registered() == before.is_registered()
    &&& after.last_seen_at() == before.last_seen_at()
    &&& after.opened() == before.opened()
}

/// A frame that changes nothing but what it reports.
pub open spec fn still_connected(before: Session, after: Session) -> bool {
    &&& after.phase_of() == Phase::Connected
    &&& after.held_sends() == before.held_sends()
    &&& after.server_name() == before.server_name()
    &&& after.is_registered() == before.is_registered()
}

/// The name that registration reports: the one from the greeting, else
/// the login name.
pub open spec fn registered_name(before: Session) -> Seq<char> {
    match before.server_name() {
        Some(n) => n,
        None => before.login_name(),
    }
}

/// The state that a frame read on an open stream leads to, and the actions.
pub open spec fn frame_outcome(before: Session, after: Session, f: Frame, r: Seq<Action>) -> bool {
    &&& keeps_setup(before, after)
    &&& after.wf()
    &&& match f {
        Frame::Ping { token } => still_connected(before, after) && r.len() == 1 && is_write(r[0], pong_text(token@)),
        Frame::Ready { name } => {
            &&& after.phase_of() == Phase::Connected
            &&& after.held_sends() == before.held_sends()
            &&& after.is_registered() == before.is_registered()
            &&& after.server_name() == Some(name@)
            &&& r.len() == 0
        },
        Frame::Join { user, channel } => still_connected(before, after) && if before.server_name() == Some(user@) {
            r == seq![Action::Emit(Event::Join { channel })]
        } else {
            r.len() == 0
        },
        Frame::RoomState { channel, room_id } => still_connected(before, after) && match room_id {
            Some(id) => r == seq![Action::Emit(Event::ChannelId { channel, room_id: id })],
            None => r.len() == 0,
        },
        Frame::UserState { channel, msg_id, badges } => still_connected(before, after) && r
            == seq![Action::Emit(Event::UserState { channel, msg_id, badges })],
        Frame::GlobalUserState { display_name, user_id, color, emote_sets, badges } => {
            &&& after.phase_of() == Phase::Connected
            &&& after.is_registered()
            &&& after.server_name() == before.server_name()
            &&& replay_actions(before, r)
            &&& after.held_sends().len() == 0
            &&& match r[0] {
                Action::Emit(Event::Connected { identity }) => {
                    &&& identity.wf()
                    &&& identity.name@ == registered_name(before)
                    &&& identity.user_id@ == match user_id {
                        Some(u) => u@,
                        None => Seq::<char>::empty(),
                    }
                    &&& identity.display_name == display_name
                    &&& identity.color == color
                    &&& identity.emote_sets == emote_sets
                    &&& identity.badges_for(identity.name@) == crate::identity::upsert_all(Map::empty(), badges@)
                },
                _ => false,
            }
        },
        Frame::Privmsg { channel, sender, data, msg_id, raw } => still_connected(before, after) && r
            == seq![Action::Emit(Event::Privmsg { channel, sender, data, msg_id, raw })],
        Frame::Notice { text } => if auth_failure_text(text@) {
            &&& after.phase_of() == Phase::Stopped
            &&& after.held_sends() == before.held_sends()
            &&& r.len() == 2
            &&& r[0] == Action::Emit(Event::InvalidCredentials)
            &&& r[1] is Stop
        } else {
            still_connected(before, after) && r.len() == 0
        },
        Frame::Other => still_connected(before, after) && r.len() == 0,
    }
}

/// The state and actions that a queued command leads to; `online` tells
/// whether a registered stream is open to write it to.
pub open spec fn command_outcome(
    before: Session,
    after: Session,
    c: WriteKind,
    online: bool,
    r: Seq<Action>,
) -> bool {
    &&& after.phase_of() == before.phase_of()
    &&& after.keepalive() == before.keepalive()
    &&& after.login_name() == before.login_name()
    &&& after.login_token() == before.login_token()
    &&& after.server_name() == before.server_name()
    &&& after.is_registered() == before.is_registered()
    &&& after.last_seen_at() == before.last_seen_at()
    &&& after.opened() == before.opened()
    &&& after.wf()
    &&& match c {
        WriteKind::Join { channel } => {
            &&& after.channel_set() == before.channel_set().insert(channel@)
            &&& after.held_sends() == before.held_sends()
            &&& if online {
                r.len() == 1 && is_write(r[0], join_text(channel@))
            } else {
                r.len() == 0
            }
        },
        WriteKind::Part { channel } => {
            &&& after.channel_set() == before.channel_set().remove(channel@)
            &&& after.held_sends() == before.held_sends()
            &&& if online {
                r.len() == 1 && is_write(r[0], part_text(channel@))
            } else {
                r.len() == 0
            }
        },
        WriteKind::Send { target, data } => {
            &&& after.channel_set() == before.channel_set()
            &&& after.channel_list() == before.channel_list()
            &&& if online {
                &&& r.len() == 1
                &&& is_write(r[0], privmsg_text(target@, data@))
                &&& after.held_sends() == before.held_sends()
            } else {
                &&& r.len() == 0
                &&& after.held_sends() == before.held_sends().push((target@, data@))
            }
        },
    }
}

/// The state and actions that one input leads to.
pub open spec fn step_outcome(before: Session, after: Session, input: Input, r: Seq<Action>) -> bool {
    let ph = before.phase_of();
    let unchanged = after == before && r.len() == 0;
    if ph == Phase::Stopped {
        unchanged
    } else {
        match input {
            Input::Signal { start } => if ph == Phase::Idle {
                if start {
                    same_but_phase(before, after, Phase::Connecting) && attempt_actions(r)
                } else {
                    same_but_phase(before, after, Phase::Stopped) && r.len() == 1 && r[0] is Stop
                }
            } else {
                unchanged
            },
            Input::Opened { now } => if ph == Phase::Connecting {
                &&& keeps_setup(before, after)
                &&& after.phase_of() == Phase::Connected
                &&& after.held_sends() == before.held_sends()
                &&& after.server_name() is None
                &&& !after.is_registered()
                &&& after.last_seen_at() == now
                &&& after.opened() == now
                &&& r.len() == 1
                &&& is_write(r[0], register_text(before.login_name(), before.login_token()))
            } else {
                unchanged
            },
            Input::OpenFailed => if ph == Phase::Connecting {
                same_but_phase(before, after, Phase::Waiting) && reconnect_actions(r)
            } else {
                unchanged
            },
            Input::WriteFailed | Input::ReadFailed => if ph == Phase::Connected {
                same_but_phase(before, after, Phase::Waiting) && reconnect_actions(r)
            } else {
                unchanged
            },
            Input::Received { line, now } => if ph == Phase::Connected {
                if kind_of(line@) is None {
                    same_but_phase(before, after, Phase::Waiting) && reconnect_actions(r)
                } else {
                    exists|f: Frame|
                        reads_as(line@, f) && #[trigger] frame_outcome(before, after, f, r) && after.last_seen_at()
                            == now && after.opened() == before.opened()
                }
            } else {
                unchanged
            },
            Input::Quiet { now } => if ph == Phase::Connected {
                if before.timed_out(now) {
                    same_but_phase(before, after, Phase::Waiting) && reconnect_actions(r)
                } else {
                    after == before && r.len() == 1 && is_write(r[0], ping_text(ping_token(before.opened(), now)))
                }
            } else {
                unchanged
            },
            Input::Command { command } => command_outcome(
                before,
                after,
                command,
                ph == Phase::Connected && before.is_registered(),
                r,
            ),
            Input::CommandsClosed | Input::EventsClosed => same_but_phase(before, after, Phase::Stopped) && r.len()
                == 1 && r[0] is Stop,
            Input::Waited => if ph == Phase::Waiting {
                same_but_phase(before, after, Phase::Connecting) && attempt_actions(r)
            } else {
                unchanged
            },
        }
    }
}

/// The session of one chat connection, driven one input at a time.
///
/// It owns the set of channels the application wants to be in. That set
/// outlives each connection: joins and parts change it whether or not a
/// stream is open, and each time registration completes a join is written
/// for every channel in it.
pub struct Session {
    phase: Phase,
    name: String,
    token: String,
    keepalive_ms: u64,
    channels: Vec<(String, ())>,
    held: Vec<(String, String)>,
    our_name: Option<String>,
    registered: bool,
    last_seen: u64,
    opened_at: u64,
}

impl Session {
    /// The name the session logs in with.
    pub closed spec fn login_name(&self) -> Seq<char> {
        self.name@
    }

    /// The credential token the session logs in with.
    pub closed spec fn login_token(&self) -> Seq<char> {
        self.token@
    }

    pub closed spec fn phase_of(&self) -> Phase {
        self.phase
    }

    /// The channels the application wants to be in.
    pub closed spec fn channel_set(&self) -> Set<Seq<char>> {
        as_map(self.channels@).dom()
    }

    /// The same channels, in the order their joins are replayed.
    pub closed spec fn channel_list(&self) -> Seq<Seq<char>> {
        self.channels@.map_values(|e: (String, ())| e.0@)
    }

    /// Chat messages queued while no stream was open, as (target, text).
    pub closed spec fn held_sends(&self) -> Seq<(Seq<char>, Seq<char>)> {
        self.held@.map_values(|e: (String, String)| (e.0@, e.1@))
    }

    /// The name the server gave us in its greeting, once seen.
    pub closed spec fn server_name(&self) -> Option<Seq<char>> {
        match self.our_name {
            Some(n) => Some(n@),
            None => None,
        }
    }

    /// Whether registration has completed on the current stream.
    pub closed spec fn is_registered(&self) -> bool {
        self.registered
    }

    pub closed spec fn keepalive(&self) -> u64 {
        self.keepalive_ms
    }

    /// When the last line was read (milliseconds).
    pub closed spec fn last_seen_at(&self) -> u64 {
        self.last_seen
    }

    pub closed spec fn opened(&self) -> u64 {
        self.opened_at
    }

    pub closed spec fn wf(&self) -> bool {
        keys_unique(self.channels@)
    }

    /// The line was read more than two keepalive intervals before `now`.
    pub open spec fn timed_out(&self, now: u64) -> bool {
        now as int - self.last_seen_at() as int >= 2 * self.keepalive() as int
    }

    /// A session that logs in as `name` with `token` and probes the server
    /// after `keepalive_ms` of silence. It waits for the start signal.
    pub fn new(name: String, token: String, keepalive_ms: u64) -> (r: Session)
        ensures
            r.wf(),
            r.phase_of() == Phase::Idle,
            r.channel_set() == Set::<Seq<char>>::empty(),
            r.held_sends() == Seq::<(Seq<char>, Seq<char>)>::empty(),
            r.keepalive() == keepalive_ms,
            r.login_name() == name@,
            r.login_token() == token@,
    {
        let r = Session {
            phase: Phase::Idle,
            name,
            token,
            keepalive_ms,
            channels: Vec::new(),
            held: Vec::new(),
            our_name: None,
            registered: false,
            last_seen: 0,
            opened_at: 0,
        };
        assert(as_map(r.channels@).dom() =~= Set::<Seq<char>>::empty());
        assert(r.held_sends() =~= Seq::<(Seq<char>, Seq<char>)>::empty());
        r
    }

    pub fn phase(&self) -> (r: Phase)
        ensures
            r == self.phase_of(),
    {
        self.phase
    }

    /// The channels the application wants to be in, in join order.
    pub fn active_channels(&self) -> (r: Vec<String>)
        ensures
            r@.map_values(|s: String| s@) == self.channel_list(),
    {
        let mut out: Vec<String> = Vec::new();
        let mut i: usize = 0;
        while i < self.channels.len()
            invariant
                i <= self.channels@.len(),
                out@.len() == i,
                forall|k: int| 0 <= k < i ==> (#[trigger] out@[k])@ == self.channels@[k].0@,
            decreases self.channels@.len() - i,
        {
            out.push(self.channels[i].0.clone());
            i = i + 1;
        }
        assert(out@.map_values(|s: String| s@) =~= self.channel_list());
        out
    }

    fn is_auth_failure(text: &String) -> (r: bool)
        ensures
            r == auth_failure_text(text@),
    {
        let login: String = "Login authentication failed".to_owned();
        let format: String = "Improperly formatted auth".to_owned();
        *text == login || *text == format
    }

    fn replay(&mut self) -> (r: Vec<Action>)
        ensures
            r@.len() == old(self).channel_list().len() + old(self).held_sends().len(),
            forall|k: int| 0 <= k < old(self).channel_list().len() ==> is_write(
                #[trigger] r@[k],
                join_text(old(self).channel_list()[k]),
            ),
            forall|k: int| 0 <= k < old(self).held_sends().len() ==> is_write(
                #[trigger] r@[old(self).channel_list().len() + k],
                privmsg_text(old(self).held_sends()[k].0, old(self).held_sends()[k].1),
            ),
            final(self).held_sends().len() == 0,
            *final(self) == (Session { held: final(self).held, ..*old(self) }),
    {
        let mut r: Vec<Action> = Vec::new();
        let n = self.channels.len();
        let mut i: usize = 0;
        while i < n
            invariant
                n == self.channels@.len(),
                i <= n,
                r@.len() == i,
                forall|k: int| 0 <= k < i ==> is_write(#[trigger] r@[k], join_text(self.channel_list()[k])),
            decreases n - i,
        {
            let line = join_line(self.channels[i].0.as_str());
            r.push(Action::Write(line));
            i = i + 1;
        }
        let mut j: usize = 0;
        while j < self.held.len()
            invariant
                j <= self.held@.len(),
                n == self.channels@.len(),
                r@.len() == n + j,
                forall|k: int| 0 <= k < n ==> is_write(#[trigger] r@[k], join_text(self.channel_list()[k])),
                forall|k: int| 0 <= k < j ==> is_write(
                    #[trigger] r@[n + k],
                    privmsg_text(self.held_sends()[k].0, self.held_sends()[k].1),
                ),
            decreases self.held@.len() - j,
        {
            let line = privmsg_line(self.held[j].0.as_str(), self.held[j].1.as_str());
            r.push(Action::Write(line));
            j = j + 1;
            assert(forall|k: int| 0 <= k < n ==> is_write(#[trigger] r@[k], join_text(self.channel_list()[k])));
        }
        self.held = Vec::new();
        proof {
            assert(self.held_sends() =~= Seq::<(Seq<char>, Seq<char>)>::empty());
        }
        r
    }

    fn on_frame(&mut self, frame: Frame) -> (r: Vec<Action>)
        requires
            old(self).wf(),
            old(self).phase_of() == Phase::Connected,
        ensures
            frame_outcome(*old(self), *final(self), frame, r@),
            final(self).name == old(self).name,
            final(self).token == old(self).token,
            final(self).opened() == old(self).opened(),
            final(self).last_seen_at() == old(self).last_seen_at(),
    {
        let ghost before = *self;
        match frame {
            Frame::Ping { token } => {
                let mut r: Vec<Action> = Vec::new();
                r.push(Action::Write(pong_line(token.as_str())));
                r
            },
            Frame::Ready { name } => {
                self.our_name = Some(name);
                Vec::new()
            },
            Frame::Join { user, channel } => {
                let mut r: Vec<Action> = Vec::new();
                let ours = match &self.our_name {
                    Some(n) => *n == user,
                    None => false,
                };
                if ours {
                    r.push(Action::Emit(Event::Join { channel }));
                }
                r
            },
            Frame::RoomState { channel, room_id } => {
                let mut r: Vec<Action> = Vec::new();
                match room_id {
                    Some(id) => r.push(Action::Emit(Event::ChannelId { channel, room_id: id })),
                    None => {},
                }
                r
            },
            Frame::UserState { channel, msg_id, badges } => {
                let mut r: Vec<Action> = Vec::new();
                r.push(Action::Emit(Event::UserState { channel, msg_id, badges }));
                r
            },
            Frame::GlobalUserState { display_name, user_id, color, emote_sets, badges } => {
                let name = match &self.our_name {
                    Some(n) => n.clone(),
                    None => self.name.clone(),
                };
                let uid = match user_id {
                    Some(u) => u,
                    None => String::new(),
                };
                let identity = Identity::assemble(name, display_name, uid, color, emote_sets, &badges);
                self.registered = true;
                let mut r: Vec<Action> = Vec::new();
                r.push(Action::Emit(Event::Connected { identity }));
                let mut joins = self.replay();
                let ghost jv = joins@;
                r.append(&mut joins);
                proof {
                    let n = before.channel_list().len();
                    let h = before.held_sends();
                    assert forall|k: int| 0 <= k < n implies is_write(
                        #[trigger] r@[1 + k],
                        join_text(before.channel_list()[k]),
                    ) by {
                        assert(r@[1 + k] == jv[k]);
                    }
                    assert forall|k: int| 0 <= k < h.len() implies is_write(
                        #[trigger] r@[1 + n + k],
                        privmsg_text(h[k].0, h[k].1),
                    ) by {
                        assert(r@[1 + n + k] == jv[n + k]);
                    }
                }
                r
            },
            Frame::Privmsg { channel, sender, data, msg_id, raw } => {
                let mut r: Vec<Action> = Vec::new();
                r.push(Action::Emit(Event::Privmsg { channel, sender, data, msg_id, raw }));
                r
            },
            Frame::Notice { text } => {
                if Self::is_auth_failure(&text) {
                    self.phase = Phase::Stopped;
                    let mut r: Vec<Action> = Vec::new();
                    r.push(Action::Emit(Event::InvalidCredentials));
                    r.push(Action::Stop);
                    r
                } else {
                    Vec::new()
                }
            },
            Frame::Other => Vec::new(),
        }
    }

    fn apply_command(&mut self, command: WriteKind, online: bool) -> (r: Vec<Action>)
        requires
            old(self).wf(),
        ensures
            command_outcome(*old(self), *final(self), command, online, r@),
            final(self).name == old(self).name,
            final(self).token == old(self).token,
    {
        let mut r: Vec<Action> = Vec::new();
        match command {
            WriteKind::Join { channel } => {
                if online {
                    r.push(Action::Write(join_line(channel.as_str())));
                }
                upsert(&mut self.channels, channel, ());
            },
            WriteKind::Part { channel } => {
                if online {
                    r.push(Action::Write(part_line(channel.as_str())));
                }
                let _ = take_key(&mut self.channels, channel.as_str());
            },
            WriteKind::Send { target, data } => {
                if online {
                    r.push(Action::Write(privmsg_line(target.as_str(), data.as_str())));
                } else {
                    self.held.push((target, data));
                    proof {
                        assert(self.held_sends() =~= old(self).held_sends().push((target@, data@)));
                    }
                }
            },
        }
        r
    }

    fn on_quiet(&mut self, now: u64) -> (r: Vec<Action>)
        requires
            old(self).phase_of() == Phase::Connected,
        ensures
            if old(self).timed_out(now) {
                *final(self) == (Session { phase: Phase::Waiting, ..*old(self) }) && reconnect_actions(r@)
            } else {
                *final(self) == *old(self) && r@.len() == 1 && is_write(
                    r@[0],
                    ping_text(ping_token(old(self).opened(), now)),
                )
            },
    {
        let expired = if now >= self.last_seen {
            let silent: u64 = now - self.last_seen;
            silent >= self.keepalive_ms && silent - self.keepalive_ms >= self.keepalive_ms
        } else {
            false
        };
        if expired {
            self.drop_connection()
        } else {
            let secs: u64 = if now >= self.opened_at {
                (now - self.opened_at) / 1000
            } else {
                0
            };
            let token = decimal(secs);
            let mut r: Vec<Action> = Vec::new();
            r.push(Action::Write(ping_line(token.as_str())));
            r
        }
    }

    /// Takes one input and says what to do about it. Once stopped, the
    /// session ignores everything.
    pub fn step(&mut self, input: Input) -> (r: Vec<Action>)
        requires
            old(self).wf(),
        ensures
            final(self).wf(),
            step_outcome(*old(self), *final(self), input, r@),
            final(self).login_name() == old(self).login_name(),
            final(self).login_token() == old(self).login_token(),
    {
        if self.phase == Phase::Stopped {
            return Vec::new();
        }
        match input {
            Input::Signal { start } => {
                if self.phase == Phase::Idle {
                    if start {
                        self.begin_attempt()
                    } else {
                        self.stop()
                    }
                } else {
                    Vec::new()
                }
            },
            Input::Opened { now } => {
                if self.phase == Phase::Connecting {
                    self.phase = Phase::Connected;
                    self.our_name = None;
                    self.registered = false;
                    self.last_seen = now;
                    self.opened_at = now;
                    let mut r: Vec<Action> = Vec::new();
                    r.push(Action::Write(register_line(self.name.as_str(), self.token.as_str())));
                    r
                } else {
                    Vec::new()
                }
            },
            Input::OpenFailed => {
                if self.phase == Phase::Connecting {
                    self.drop_connection()
                } else {
                    Vec::new()
                }
            },
            Input::WriteFailed | Input::ReadFailed => {
                if self.phase == Phase::Connected {
                    self.drop_connection()
                } else {
                    Vec::new()
                }
            },
            Input::Received { line, now } => {
                if self.phase == Phase::Connected {
                    match read_frame(line.as_str()) {
                        None => self.drop_connection(),
                        Some(frame) => {
                            let ghost f = frame;
                            self.last_seen = now;
                            let r = self.on_frame(frame);
                            assert(frame_outcome(*old(self), *self, f, r@));
                            r
                        },
                    }
                } else {
                    Vec::new()
                }
            },
            Input::Quiet { now } => {
                if self.phase == Phase::Connected {
                    self.on_quiet(now)
                } else {
                    Vec::new()
                }
            },
            Input::Command { command } => {
                let online = self.phase == Phase::Connected && self.registered;
                self.apply_command(command, online)
            },
            Input::CommandsClosed | Input::EventsClosed => self.stop(),
            Input::Waited => {
                if self.phase == Phase::Waiting {
                    self.begin_attempt()
                } else {
                    Vec::new()
                }
            },
        }
    }

    fn drop_connection(&mut self) -> (r: Vec<Action>)
        ensures
            *final(self) == (Session { phase: Phase::Waiting, ..*old(self) }),
            reconnect_actions(r@),
            final(self).channels == old(self).channels,
            final(self).held == old(self).held,
            final(self).keepalive_ms == old(self).keepalive_ms,
    {
        self.phase = Phase::Waiting;
        let mut r: Vec<Action> = Vec::new();
        r.push(Action::Emit(Event::Reconnecting { after_ms: RECONNECT_DELAY_MS }));
        r.push(Action::Sleep(RECONNECT_DELAY_MS));
        r
    }

    fn begin_attempt(&mut self) -> (r: Vec<Action>)
        ensures
            *final(self) == (Session { phase: Phase::Connecting, ..*old(self) }),
            attempt_actions(r@),
            final(self).channels == old(self).channels,
            final(self).held == old(self).held,
            final(self).keepalive_ms == old(self).keepalive_ms,
    {
        self.phase = Phase::Connecting;
        let mut r: Vec<Action> = Vec::new();
        r.push(Action::Emit(Event::Connecting));
        r.push(Action::Connect);
        r
    }

    fn stop(&mut self) -> (r: Vec<Action>)
        ensures
            *final(self) == (Session { phase: Phase::Stopped, ..*old(self) }),
            r@.len() == 1 && r@[0] is Stop,
            final(self).channels == old(self).channels,
            final(self).held == old(self).held,
            final(self).keepalive_ms == old(self).keepalive_ms,
    {
        self.phase = Phase::Stopped;
        let mut r: Vec<Action> = Vec::new();
        r.push(Action::Stop);
        r
    }
}

/// Only commands change the set of wanted channels: dropping a connection,
/// waiting, reconnecting and reading frames all leave it as it was.
pub proof fn lemma_only_commands_change_channels(before: Session, after: Session, input: Input, r: Seq<Action>)
    requires
        before.wf(),
        step_outcome(before, after, input, r),
        !(input is Command),
    ensures
        after.channel_set() == before.channel_set(),
        after.channel_list() == before.channel_list(),
{
    if before.phase_of() != Phase::Stopped {
        match input {
            Input::Received { line, now } => {
                if before.phase_of() == Phase::Connected && kind_of(line@) is Some {
                    let f = choose|f: Frame|
                        reads_as(line@, f) && #[trigger] frame_outcome(before, after, f, r) && after.last_seen_at()
                            == now && after.opened() == before.opened();
                }
            },
            _ => {},
        }
    }
}

/// A message sent while offline is held until registration completes, and
/// nothing but registration or a send lets go of it: dropping, waiting,
/// reconnecting and other frames keep it.
pub proof fn lemma_held_until_registered(before: Session, after: Session, input: Input, r: Seq<Action>)
    requires
        before.wf(),
        step_outcome(before, after, input, r),
        !(input is Command),
        !(before.phase_of() == Phase::Connected && input is Received && kind_of(input->line@) == Some(
            crate::wire::FrameKind::GlobalUserState,
        )),
    ensures
        after.held_sends() == before.held_sends(),
{
    if before.phase_of() != Phase::Stopped {
        match input {
            Input::Received { line, now } => {
                if before.phase_of() == Phase::Connected && kind_of(line@) is Some {
                    let f = choose|f: Frame|
                        reads_as(line@, f) && #[trigger] frame_outcome(before, after, f, r) && after.last_seen_at()
                            == now && after.opened() == before.opened();
                }
            },
            _ => {},
        }
    }
}

/// When registration completes, a join is written for every wanted channel,
/// then every message held back while offline, and nothing written or
/// reported in that same step is a chat message.
pub proof fn lemma_rejoin_on_connect(before: Session, after: Session, line: String, now: u64, r: Seq<Action>)
    requires
        before.wf(),
        before.phase_of() == Phase::Connected,
        kind_of(line@) == Some(crate::wire::FrameKind::GlobalUserState),
        step_outcome(before, after, Input::Received { line, now }, r),
    ensures
        after.phase_of() == Phase::Connected,
        after.is_registered(),
        after.channel_set() == before.channel_set(),
        r[0] is Emit && r[0]->Emit_0 is Connected,
        forall|c: Seq<char>| #[trigger] before.channel_set().contains(c) ==> exists|k: int|
            0 < k < r.len() && is_write(#[trigger] r[k], join_text(c)),
        forall|k: int| #![trigger before.held_sends()[k]] 0 <= k < before.held_sends().len() ==> exists|j: int|
            0 < j < r.len() && is_write(#[trigger] r[j], privmsg_text(before.held_sends()[k].0, before.held_sends()[k].1)),
        forall|k: int| 0 <= k < r.len() ==> !is_chat(#[trigger] r[k]),
{
    let f = choose|f: Frame|
        reads_as(line@, f) && #[trigger] frame_outcome(before, after, f, r) && after.last_seen_at() == now
            && after.opened() == before.opened();
    match f {
        Frame::GlobalUserState { display_name, user_id, color, emote_sets, badges } => {
            assert(replay_actions(before, r));
            let n = before.channel_list().len();
            let h = before.held_sends();
            assert forall|c: Seq<char>| #[trigger] before.channel_set().contains(c) implies exists|k: int|
                0 < k < r.len() && is_write(#[trigger] r[k], join_text(c)) by {
                let i = choose|i: int| 0 <= i < before.channels@.len() && (#[trigger] before.channels@[i]).0@ == c;
                assert(before.channel_list()[i] == c);
                assert(is_write(r[1 + i], join_text(before.channel_list()[i])));
            }
            assert forall|k: int| #![trigger h[k]] 0 <= k < h.len() implies exists|j: int|
                0 < j < r.len() && is_write(#[trigger] r[j], privmsg_text(h[k].0, h[k].1)) by {
                assert(is_write(r[1 + n + k], privmsg_text(h[k].0, h[k].1)));
            }
            assert forall|k: int| 0 <= k < r.len() implies !is_chat(#[trigger] r[k]) by {
                if k > 0 && k < 1 + n {
                    assert(is_write(r[1 + (k - 1)], join_text(before.channel_list()[k - 1])));
                } else if k >= 1 + n {
                    let j = k - 1 - n;
                    assert(is_write(r[1 + n + j], privmsg_text(h[j].0, h[j].1)));
                }
            }
        },
        _ => {
            assert(false);
        },
    }
}

/// A connection that has read nothing for two keepalive intervals is given
/// up at the next quiet tick: the session reports `Reconnecting` and waits.
pub proof fn lemma_silence_reconnects(before: Session, after: Session, now: u64, r: Seq<Action>)
    requires
        before.phase_of() == Phase::Connected,
        now as int - before.last_seen_at() as int >= 2 * before.keepalive() as int,
        step_outcome(before, after, Input::Quiet { now }, r),
    ensures
        after.phase_of() == Phase::Waiting,
        after.channel_set() == before.channel_set(),
        reconnect_actions(r),
{
}

/// After a drop the session waits, and the end of the wait starts a new
/// attempt: `Connecting`, then a connect.
pub proof fn lemma_wait_then_retry(before: Session, mid: Session, after: Session, r: Seq<Action>, r2: Seq<Action>)
    requires
        before.phase_of() == Phase::Connected,
        step_outcome(before, mid, Input::ReadFailed, r),
        step_outcome(mid, after, Input::Waited, r2),
    ensures
        reconnect_actions(r),
        mid.phase_of() == Phase::Waiting,
        after.phase_of() == Phase::Connecting,
        attempt_actions(r2),
        after.channel_set() == before.channel_set(),
{
}

/// A notice that rejects the credentials is reported once, as
/// `InvalidCredentials`, and the session does nothing after it: no
/// `Reconnecting`, whatever comes next.
pub proof fn lemma_rejected_credentials_stop(
    before: Session,
    mid: Session,
    after: Session,
    line: String,
    now: u64,
    r: Seq<Action>,
    next: Input,
    r2: Seq<Action>,
)
    requires
        before.wf(),
        before.phase_of() == Phase::Connected,
        kind_of(line@) == Some(crate::wire::FrameKind::Notice),
        crate::wire::data_of(line@) is Some,
        auth_failure_text(crate::wire::data_of(line@).unwrap()),
        step_outcome(before, mid, Input::Received { line, now }, r),
        step_outcome(mid, after, next, r2),
    ensures
        mid.phase_of() == Phase::Stopped,
        r.len() == 2,
        r[0] == Action::Emit(Event::InvalidCredentials),
        r[1] is Stop,
        r2.len() == 0,
        after == mid,
{
    let f = choose|f: Frame|
        reads_as(line@, f) && #[trigger] frame_outcome(before, mid, f, r) && mid.last_seen_at() == now
            && mid.opened() == before.opened();
    match f {
        Frame::Notice { text } => {},
        _ => {
            assert(false);
        },
    }
}

} // verus!
