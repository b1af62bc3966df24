use vstd::prelude::*;

use crate::text::{split_commas, split_on};
use crate::wire::{args_of, badges_in, data_of, kind_of, line_args, line_data, line_kind,
    line_sender, line_tag, sender_of, split_badges, tag_of, FrameKind};

verus! {

/// An inbound protocol line, reduced to what the session acts on.
pub enum Frame {
    /// A keepalive probe from the server, to be answered with its token.
    Ping { token: String },
    /// The end of the greeting; carries the name the server knows us by.
    Ready { name: String },
    /// Someone, maybe us, joined a channel.
    Join { user: String, channel: String },
    /// Per-channel room metadata.
    RoomState { channel: String, room_id: Option<String> },
    /// Our per-channel state, sent after each of our messages.
    UserState { channel: String, msg_id: Option<String>, badges: Vec<(String, String)> },
    /// Session-wide state, sent once registration is complete.
    GlobalUserState {
        display_name: Option<String>,
        user_id: Option<String>,
        color: Option<String>,
        emote_sets: Vec<String>,
        badges: Vec<(String, String)>,
    },
    /// A chat message.
    Privmsg { channel: String, sender: String, data: String, msg_id: Option<String>, raw: String },
    /// A server notice.
    Notice { text: String },
    /// Anything else; ignored.
    Other,
}

pub open spec fn opt_view(o: Option<String>) -> Option<Seq<char>> {
    match o {
        Some(s) => Some(s@),
        None => None,
    }
}

pub open spec fn strs_view(v: Seq<String>) -> Seq<Seq<char>> {
    v.map_values(|s: String| s@)
}

pub open spec fn pairs_view(v: Seq<(String, String)>) -> Seq<(Seq<char>, Seq<char>)> {
    v.map_values(|p: (String, String)| (p.0@, p.1@))
}

/// The badges that the `badges` tag of `line` lists.
pub open spec fn badges_of(line: Seq<char>) -> Seq<(Seq<char>, Seq<char>)> {
    match tag_of(line, "badges"@) {
        Some(v) => badges_in(v),
        None => Seq::empty(),
    }
}

/// The emote sets that the `emote-sets` tag of `line` lists.
pub open spec fn emote_sets_of(line: Seq<char>) -> Seq<Seq<char>> {
    match tag_of(line, "emote-sets"@) {
        Some(v) => split_on(v, ','),
        None => Seq::empty(),
    }
}

/// The first middle argument of `line`.
pub open spec fn first_arg(line: Seq<char>) -> Option<Seq<char>> {
    if args_of(line).len() > 0 {
        Some(args_of(line)[0])
    } else {
        None
    }
}

/// `f` is what `line` reads as.
pub open spec fn reads_as(line: Seq<char>, f: Frame) -> bool {
    match kind_of(line) {
        None => false,
        Some(FrameKind::Ping) => match (data_of(line), f) {
            (Some(t), Frame::Ping { token }) => token@ == t,
            (None, Frame::Other) => true,
            _ => false,
        },
        Some(FrameKind::Ready) => match (first_arg(line), f) {
            (Some(a), Frame::Ready { name }) => name@ == a,
            (None, Frame::Other) => true,
            _ => false,
        },
        Some(FrameKind::Named(c)) if c@ == "JOIN"@ => match (first_arg(line), sender_of(line), f) {
            (Some(a), Some(u), Frame::Join { user, channel }) => user@ == u && channel@ == a,
            (Some(a), None, Frame::Other) => true,
            (None, _, Frame::Other) => true,
            _ => false,
        },
        Some(FrameKind::RoomState) => match (first_arg(line), f) {
            (Some(a), Frame::RoomState { channel, room_id }) => channel@ == a && opt_view(room_id)
                == tag_of(line, "room-id"@),
            (None, Frame::Other) => true,
            _ => false,
        },
        Some(FrameKind::UserState) => match (first_arg(line), f) {
            (Some(a), Frame::UserState { channel, msg_id, badges }) => channel@ == a && opt_view(msg_id)
                == tag_of(line, "id"@) && pairs_view(badges@) == badges_of(line),
            (None, Frame::Other) => true,
            _ => false,
        },
        Some(FrameKind::GlobalUserState) => match f {
            Frame::GlobalUserState { display_name, user_id, color, emote_sets, badges } => {
                &&& opt_view(display_name) == tag_of(line, "display-name"@)
                &&& opt_view(user_id) == tag_of(line, "user-id"@)
                &&& opt_view(color) == tag_of(line, "color"@)
                &&& strs_view(emote_sets@) == emote_sets_of(line)
                &&& pairs_view(badges@) == badges_of(line)
            },
            _ => false,
        },
        Some(FrameKind::Privmsg) => match (first_arg(line), sender_of(line), data_of(line), f) {
            (Some(a), Some(u), Some(d), Frame::Privmsg { channel, sender, data, msg_id, raw }) => {
                &&& channel@ == a
                &&& sender@ == u
                &&& data@ == d
                &&& opt_view(msg_id) == tag_of(line, "id"@)
                &&& raw@ == line
            },
            (Some(a), Some(u), Some(d), _) => false,
            (_, _, _, Frame::Other) => true,
            _ => false,
        },
        Some(FrameKind::Notice) => match (data_of(line), f) {
            (Some(t), Frame::Notice { text }) => text@ == t,
            (None, Frame::Other) => true,
            _ => false,
        },
        Some(_) => f is Other,
    }
}

fn tag_badges(line: &str) -> (r: Vec<(String, String)>)
    ensures
        pairs_view(r@) == badges_of(line@),
{
    match line_tag(line, "badges") {
        Some(v) => {
            let r = split_badges(v.as_str());
            assert(pairs_view(r@) =~= badges_in(v@));
            r
        },
        None => {
            let r: Vec<(String, String)> = Vec::new();
            assert(pairs_view(r@) =~= Seq::empty());
            r
        },
    }
}

fn tag_emote_sets(line: &str) -> (r: Vec<String>)
    ensures
        strs_view(r@) == emote_sets_of(line@),
{
    match line_tag(line, "emote-sets") {
        Some(v) => {
            let r = split_commas(v.as_str());
            assert(strs_view(r@) =~= split_on(v@, ','));
            r
        },
        None => {
            let r: Vec<String> = Vec::new();
            assert(strs_view(r@) =~= Seq::empty());
            r
        },
    }
}

fn first_of(args: Vec<String>) -> (r: Option<String>)
    ensures
        r.is_some() == (args@.len() > 0),
        r.is_some() ==> r.unwrap() == args@[0],
{
    let mut args = args;
    if args.len() > 0 {
        Some(args.remove(0))
    } else {
        None
    }
}

/// Reads one protocol line; `None` when the line cannot be parsed, which
/// the session treats as a corrupted stream.
pub fn read_frame(line: &str) -> (r: Option<Frame>)
    ensures
        r.is_none() == kind_of(line@).is_none(),
        r.is_some() ==> reads_as(line@, r.unwrap()),
{
    let kind = line_kind(line)?;
    let arg = first_of(line_args(line));
    let frame = match kind {
        FrameKind::Ping => match line_data(line) {
            Some(token) => Frame::Ping { token },
            None => Frame::Other,
        },
        FrameKind::Ready => match arg {
            Some(name) => Frame::Ready { name },
            None => Frame::Other,
        },
        FrameKind::Named(c) => {
            let join: String = "JOIN".to_owned();
            if c == join {
                match (arg, line_sender(line)) {
                    (Some(channel), Some(user)) => Frame::Join { user, channel },
                    _ => Frame::Other,
                }
            } else {
                Frame::Other
            }
        },
        FrameKind::RoomState => match arg {
            Some(channel) => Frame::RoomState { channel, room_id: line_tag(line, "room-id") },
            None => Frame::Other,
        },
        FrameKind::UserState => match arg {
            Some(channel) => Frame::UserState {
                channel,
                msg_id: line_tag(line, "id"),
                badges: tag_badges(line),
            },
            None => Frame::Other,
        },
        FrameKind::GlobalUserState => Frame::GlobalUserState {
            display_name: line_tag(line, "display-name"),
            user_id: line_tag(line, "user-id"),
            color: line_tag(line, "color"),
            emote_sets: tag_emote_sets(line),
            badges: tag_badges(line),
        },
        FrameKind::Privmsg => match (arg, line_sender(line), line_data(line)) {
            (Some(channel), Some(sender), Some(data)) => Frame::Privmsg {
                channel,
                sender,
                data,
                msg_id: line_tag(line, "id"),
                raw: line.to_owned(),
            },
            _ => Frame::Other,
        },
        FrameKind::Notice => match line_data(line) {
            Some(text) => Frame::Notice { text },
            None => Frame::Other,
        },
        _ => Frame::Other,
    };
    Some(frame)
}

} // verus!
