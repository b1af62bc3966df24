use vstd::prelude::*;

use crate::channel::{enqueue, next_queued};
use crate::identity::{upsert_all, Identity};
use crate::session::{Event, WriteKind};
use crate::text::strip_octo;

verus! {

#[verifier::external_type_specification]
#[verifier::external_body]
#[verifier::reject_recursive_types(T)]
pub struct ExOneshotSender<T>(tokio::sync::oneshot::Sender<T>);

/// Relies on tokio's `oneshot::Sender::send`: delivers the value once,
/// without waiting; it is lost if the receiving side is gone.
#[verifier::external_body]
fn deliver<T>(send: tokio::sync::oneshot::Sender<T>, value: T) {
    let _ = send.send(value);
}

/// The signal that lets a session go online, or keeps it offline.
#[derive(Clone, Copy, PartialEq, Eq, Structural, Debug)]
pub enum Signal {
    Start,
    Ignore,
}

/// The connection status that the application shows.
#[derive(Clone, Copy, PartialEq, Eq, Structural, Debug)]
pub enum Status {
    NotConnected,
    Connecting,
    Connected,
    /// Reconnecting since `since_ms`, the next attempt `after_ms` later.
    Reconnecting { since_ms: u64, after_ms: u64 },
}

/// Who logs in, and with what.
pub struct Config {
    pub name: String,
    pub token: String,
}

/// A chat message we sent, shown before the server has given it an id.
pub struct LocalEcho {
    pub channel: String,
    pub sender: String,
    pub data: String,
}

/// What the application learns from one protocol event.
pub enum Message {
    Join { channel: String },
    /// The numeric id of a channel we are in.
    ChannelMetadata { channel: String, room_id: String },
    Privmsg { channel: String, sender: String, data: String, msg_id: Option<String>, raw: String },
    /// Our own message, now with the id the server gave it.
    Finished { echo: LocalEcho, id: String },
    InvalidCredentials,
}

/// A command that joins `channel`.
pub open spec fn is_join(c: WriteKind, channel: Seq<char>) -> bool {
    match c {
        WriteKind::Join { channel: ch } => ch@ == channel,
        _ => false,
    }
}

/// A command that leaves `channel`.
pub open spec fn is_part(c: WriteKind, channel: Seq<char>) -> bool {
    match c {
        WriteKind::Part { channel: ch } => ch@ == channel,
        _ => false,
    }
}

/// A command that sends `data` to `target`.
pub open spec fn is_send(c: WriteKind, target: Seq<char>, data: Seq<char>) -> bool {
    match c {
        WriteKind::Send { target: t, data: d } => t@ == target && d@ == data,
        _ => false,
    }
}

/// Queues commands for the connection; never blocks, never fails.
pub struct Writer {
    send: tokio::sync::mpsc::UnboundedSender<WriteKind>,
    queued: Ghost<Seq<WriteKind>>,
}

impl Writer {
    /// The commands handed to the queue so far, oldest first.
    pub closed spec fn queued(&self) -> Seq<WriteKind> {
        self.queued@
    }

    pub fn new(send: tokio::sync::mpsc::UnboundedSender<WriteKind>) -> (r: Writer)
        ensures
            r.queued() == Seq::<WriteKind>::empty(),
    {
        Writer { send, queued: Ghost(Seq::empty()) }
    }

    fn put(&mut self, command: WriteKind)
        ensures
            final(self).queued() == old(self).queued().push(command),
    {
        proof {
            self.queued = Ghost(self.queued@.push(command));
        }
        enqueue(&self.send, command);
    }

    /// Queues a chat message for `target`.
    pub fn privmsg(&mut self, target: &str, data: &str)
        ensures
            final(self).queued().drop_last() == old(self).queued(),
            final(self).queued().len() == old(self).queued().len() + 1,
            is_send(final(self).queued().last(), target@, data@),
    {
        self.put(WriteKind::Send { target: target.to_owned(), data: data.to_owned() });
        proof {
            assert(self.queued().drop_last() =~= old(self).queued());
        }
    }

    /// Queues a join of `channel`.
    pub fn join(&mut self, channel: &str)
        ensures
            final(self).queued().drop_last() == old(self).queued(),
            final(self).queued().len() == old(self).queued().len() + 1,
            is_join(final(self).queued().last(), channel@),
    {
        self.put(WriteKind::Join { channel: channel.to_owned() });
        proof {
            assert(self.queued().drop_last() =~= old(self).queued());
        }
    }

    /// Queues a part of `channel`.
    pub fn part(&mut self, channel: &str)
        ensures
            final(self).queued().drop_last() == old(self).queued(),
            final(self).queued().len() == old(self).queued().len() + 1,
            is_part(final(self).queued().last(), channel@),
    {
        self.put(WriteKind::Part { channel: channel.to_owned() });
        proof {
            assert(self.queued().drop_last() =~= old(self).queued());
        }
    }
}

/// What handling `event` does to the status, the identity and the pending
/// local echo, and what it hands back.
pub open spec fn handled(
    status: Status,
    identity: Option<Identity>,
    pending: Option<LocalEcho>,
    event: Event,
    now: u64,
    status2: Status,
    identity2: Option<Identity>,
    pending2: Option<LocalEcho>,
    r: Option<Message>,
) -> bool {
    match event {
        Event::Connecting => status2 == Status::Connecting && identity2 == identity && pending2
            == pending && r is None,
        Event::Connected { identity: new } => status2 == Status::Connected && identity2 == Some(new)
            && pending2 == pending && r is None,
        Event::Reconnecting { after_ms } => status2 == (Status::Reconnecting {
            since_ms: now,
            after_ms,
        }) && identity2 == identity && pending2 == pending && r is None,
        Event::UserState { channel, msg_id, badges } => {
            &&& status2 == status
            &&& match identity {
                Some(id) => identity2 is Some && identity2.unwrap().badges_for(strip_octo(channel@))
                    == upsert_all(id.badges_for(strip_octo(channel@)), badges@) && identity2.unwrap().wf()
                    && forall|c: Seq<char>| c != strip_octo(channel@) ==> identity2.unwrap().badges_for(c)
                    == id.badges_for(c),
                None => identity2 is None,
            }
            &&& match (pending, msg_id) {
                (Some(echo), Some(id)) => pending2 is None && r == Some(
                    Message::Finished { echo, id },
                ),
                _ => pending2 == pending && r is None,
            }
        },
        Event::ChannelId { channel, room_id } => status2 == status && identity2 == identity
            && pending2 == pending && r == Some(Message::ChannelMetadata { channel, room_id }),
        Event::Join { channel } => status2 == status && identity2 == identity && pending2
            == pending && r == Some(Message::Join { channel }),
        Event::Privmsg { channel, sender, data, msg_id, raw } => status2 == status && identity2
            == identity && pending2 == pending && r == Some(
            Message::Privmsg { channel, sender, data, msg_id, raw },
        ),
        Event::InvalidCredentials => status2 == status && identity2 == identity && pending2
            == pending && r == Some(Message::InvalidCredentials),
    }
}

/// The application's side of a chat connection: it reads the session's
/// events, keeps the status, and queues commands.
pub struct Client {
    events: tokio::sync::mpsc::UnboundedReceiver<Event>,
    writer: Writer,
    signal: Option<tokio::sync::oneshot::Sender<Signal>>,
    started: Ghost<bool>,
    status: Status,
    config: Config,
}

impl Client {
    pub closed spec fn status_of(&self) -> Status {
        self.status
    }

    /// Whether the start signal has been handed to the session.
    pub closed spec fn start_sent(&self) -> bool {
        self.started@
    }

    /// The commands queued for the session so far.
    pub closed spec fn commands(&self) -> Seq<WriteKind> {
        self.writer.queued()
    }

    pub closed spec fn may_start(&self) -> bool {
        self.signal is Some
    }

    pub closed spec fn config_name(&self) -> Seq<char> {
        self.config.name@
    }

    /// A client that reads `events`, queues through `writer`, and starts its
    /// session through `signal`.
    pub fn new(
        config: Config,
        events: tokio::sync::mpsc::UnboundedReceiver<Event>,
        writer: Writer,
        signal: tokio::sync::oneshot::Sender<Signal>,
    ) -> (r: Client)
        ensures
            r.status_of() == Status::NotConnected,
            r.may_start(),
            r.config_name() == config.name@,
            !r.start_sent(),
            r.commands() == writer.queued(),
    {
        Client {
            events,
            writer,
            signal: Some(signal),
            started: Ghost(false),
            status: Status::NotConnected,
            config,
        }
    }

    pub fn user_name(&self) -> (r: &str)
        ensures
            r@ == self.config_name(),
    {
        self.config.name.as_str()
    }

    /// Lets the session go online; only the first call does anything.
    pub fn connect(&mut self)
        ensures
            !final(self).may_start(),
            old(self).may_start() ==> final(self).start_sent(),
            !old(self).may_start() ==> final(self).start_sent() == old(self).start_sent(),
            final(self).status_of() == old(self).status_of(),
            final(self).commands() == old(self).commands(),
    {
        let signal = self.signal.take();
        match signal {
            Some(s) => {
                deliver(s, Signal::Start);
                proof {
                    self.started = Ghost(true);
                }
            },
            None => {},
        }
    }

    /// Queues a join of `channel`.
    pub fn join(&mut self, channel: &str)
        ensures
            final(self).commands().drop_last() == old(self).commands(),
            final(self).commands().len() == old(self).commands().len() + 1,
            is_join(final(self).commands().last(), channel@),
            final(self).status_of() == old(self).status_of(),
    {
        self.writer.join(channel);
    }

    /// Queues a part of `channel`.
    pub fn part(&mut self, channel: &str)
        ensures
            final(self).commands().drop_last() == old(self).commands(),
            final(self).commands().len() == old(self).commands().len() + 1,
            is_part(final(self).commands().last(), channel@),
            final(self).status_of() == old(self).status_of(),
    {
        self.writer.part(channel);
    }

    pub fn status(&self) -> (r: Status)
        ensures
            r == self.status_of(),
    {
        self.status
    }

    pub fn writer(&self) -> &Writer {
        &self.writer
    }

    /// Sends `data` to `channel` and returns the message to show at once;
    /// it has no id yet and stays pending until our next state update.
    pub fn send_message(&mut self, channel: &str, data: &str, pending: &mut Option<LocalEcho>) -> (r: LocalEcho)
        ensures
            final(self).commands().drop_last() == old(self).commands(),
            final(self).commands().len() == old(self).commands().len() + 1,
            is_send(final(self).commands().last(), channel@, data@),
            final(self).status_of() == old(self).status_of(),
            final(self).config_name() == old(self).config_name(),
            r.channel@ == channel@,
            r.sender@ == old(self).config_name(),
            r.data@ == data@,
            final(pending).is_some(),
            final(pending).unwrap().channel@ == channel@,
            final(pending).unwrap().sender@ == old(self).config_name(),
            final(pending).unwrap().data@ == data@,
    {
        self.writer.privmsg(channel, data);
        *pending = Some(
            LocalEcho { channel: channel.to_owned(), sender: self.config.name.clone(), data: data.to_owned() },
        );
        LocalEcho { channel: channel.to_owned(), sender: self.config.name.clone(), data: data.to_owned() }
    }

    /// Applies one event at time `now` (milliseconds).
    pub fn handle(
        &mut self,
        event: Event,
        now: u64,
        identity: &mut Option<Identity>,
        pending: &mut Option<LocalEcho>,
    ) -> (r: Option<Message>)
        requires
            old(identity).is_some() ==> old(identity).unwrap().wf(),
            event is Connected ==> event->identity.wf(),
        ensures
            final(identity).is_some() ==> final(identity).unwrap().wf(),
            handled(
                old(self).status_of(),
                *old(identity),
                *old(pending),
                event,
                now,
                final(self).status_of(),
                *final(identity),
                *final(pending),
                r,
            ),
            final(self).may_start() == old(self).may_start(),
    {
        match event {
            Event::Connecting => {
                self.status = Status::Connecting;
                None
            },
            Event::Connected { identity: new } => {
                *identity = Some(new);
                self.status = Status::Connected;
                None
            },
            Event::Reconnecting { after_ms } => {
                self.status = Status::Reconnecting { since_ms: now, after_ms };
                None
            },
            Event::UserState { channel, msg_id, badges } => {
                match identity {
                    Some(id) => id.append_badges(channel.as_str(), &badges),
                    None => {},
                }
                match msg_id {
                    Some(id) => match pending.take() {
                        Some(echo) => Some(Message::Finished { echo, id }),
                        None => None,
                    },
                    None => None,
                }
            },
            Event::ChannelId { channel, room_id } => Some(Message::ChannelMetadata { channel, room_id }),
            Event::Join { channel } => Some(Message::Join { channel }),
            Event::Privmsg { channel, sender, data, msg_id, raw } => Some(
                Message::Privmsg { channel, sender, data, msg_id, raw },
            ),
            Event::InvalidCredentials => Some(Message::InvalidCredentials),
        }
    }

    /// Takes the next event the session has sent, if any, and applies it;
    /// never blocks. `None` also when nothing was waiting.
    pub fn poll(
        &mut self,
        now: u64,
        identity: &mut Option<Identity>,
        pending: &mut Option<LocalEcho>,
    ) -> (r: Option<Message>)
        requires
            old(identity).is_some() ==> old(identity).unwrap().wf(),
        ensures
            final(identity).is_some() ==> final(identity).unwrap().wf(),
            final(self).status_of() == old(self).status_of() && *final(identity) == *old(identity)
                && *final(pending) == *old(pending) && r is None || exists|e: Event|
                #[trigger] handled(
                    old(self).status_of(),
                    *old(identity),
                    *old(pending),
                    e,
                    now,
                    final(self).status_of(),
                    *final(identity),
                    *final(pending),
                    r,
                ),
    {
        match next_queued(&mut self.events) {
            Some(Event::Connected { identity: new }) => {
                let event = Event::Connected { identity: new.normalized() };
                self.handle(event, now, identity, pending)
            },
            Some(event) => self.handle(event, now, identity, pending),
            None => None,
        }
    }
}

/// Our pending message is finished by the next state update that carries an
/// id: it comes back once, with that id, and a later update finishes
/// nothing.
pub proof fn lemma_echo_finished_once(
    status: Status,
    identity: Option<Identity>,
    echo: LocalEcho,
    channel: String,
    id: String,
    badges: Vec<(String, String)>,
    now: u64,
    status2: Status,
    identity2: Option<Identity>,
    pending2: Option<LocalEcho>,
    r: Option<Message>,
    later: Event,
    status3: Status,
    identity3: Option<Identity>,
    pending3: Option<LocalEcho>,
    r3: Option<Message>,
)
    requires
        handled(
            status,
            identity,
            Some(echo),
            Event::UserState { channel, msg_id: Some(id), badges },
            now,
            status2,
            identity2,
            pending2,
            r,
        ),
        later is UserState,
        handled(status2, identity2, pending2, later, now, status3, identity3, pending3, r3),
    ensures
        r == Some(Message::Finished { echo, id }),
        pending2 is None,
        r3 is None,
{
}

} // verus!
