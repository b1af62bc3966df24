use vstd::prelude::*;
use vstd::string::*;

use twitch_message::messages::MessageKind;

verus! {

/// The command of an inbound protocol line, as far as the session cares.
pub enum FrameKind {
    Ping,
    Pong,
    Ready,
    GlobalUserState,
    UserState,
    RoomState,
    Privmsg,
    Notice,
    Reconnect,
    Numeric(u16),
    Named(String),
    Other,
}

/// The command that the protocol library reads in `line`; `None` when it
/// cannot read the line at all.
pub uninterp spec fn kind_of(line: Seq<char>) -> Option<FrameKind>;

/// The middle arguments of `line` (the channel comes first).
pub uninterp spec fn args_of(line: Seq<char>) -> Seq<Seq<char>>;

/// The trailing argument of `line`, after the ` :`.
pub uninterp spec fn data_of(line: Seq<char>) -> Option<Seq<char>>;

/// The nick or host of the prefix of `line`.
pub uninterp spec fn sender_of(line: Seq<char>) -> Option<Seq<char>>;

/// The value of the tag `key` of `line`, where it is present and not empty.
pub uninterp spec fn tag_of(line: Seq<char>, key: Seq<char>) -> Option<Seq<char>>;

/// The `(set, version)` pairs of a `badges` tag value.
pub uninterp spec fn badges_in(value: Seq<char>) -> Seq<(Seq<char>, Seq<char>)>;

/// Relies on `twitch_message::parse` and the `kind` it reads: the kind
/// depends on the text of the line alone.
#[verifier::external_body]
pub(crate) fn line_kind(line: &str) -> (r: Option<FrameKind>)
    ensures
        r == kind_of(line@),
{
    let kind = twitch_message::parse(line).ok()?.message.kind;
    Some(match kind {
        MessageKind::Ping => FrameKind::Ping,
        MessageKind::Pong => FrameKind::Pong,
        MessageKind::Ready => FrameKind::Ready,
        MessageKind::GlobalUserState => FrameKind::GlobalUserState,
        MessageKind::UserState => FrameKind::UserState,
        MessageKind::RoomState => FrameKind::RoomState,
        MessageKind::Privmsg => FrameKind::Privmsg,
        MessageKind::Notice => FrameKind::Notice,
        MessageKind::Reconnect => FrameKind::Reconnect,
        MessageKind::Numeric(n) => FrameKind::Numeric(n),
        MessageKind::Unknown(name) => FrameKind::Named(name.to_string()),
        _ => FrameKind::Other,
    })
}

/// Relies on `twitch_message::parse` and the `args` it reads.
#[verifier::external_body]
pub(crate) fn line_args(line: &str) -> (r: Vec<String>)
    ensures
        r@.len() == args_of(line@).len(),
        forall|i: int| 0 <= i < r@.len() ==> (#[trigger] r@[i])@ == args_of(line@)[i],
{
    let msg = twitch_message::parse(line).map(|p| p.message);
    msg.map(|m| m.args.iter().map(|a| a.to_string()).collect()).unwrap_or_default()
}

/// Relies on `twitch_message::parse` and the trailing `data` it reads.
#[verifier::external_body]
pub(crate) fn line_data(line: &str) -> (r: Option<String>)
    ensures
        r.is_some() == data_of(line@).is_some(),
        r.is_some() ==> r.unwrap()@ == data_of(line@).unwrap(),
{
    let msg = twitch_message::parse(line).ok()?.message;
    msg.data.map(|d| d.to_string())
}

/// Relies on `twitch_message::parse` and `Prefix::as_name_str`.
#[verifier::external_body]
pub(crate) fn line_sender(line: &str) -> (r: Option<String>)
    ensures
        r.is_some() == sender_of(line@).is_some(),
        r.is_some() ==> r.unwrap()@ == sender_of(line@).unwrap(),
{
    let msg = twitch_message::parse(line).ok()?.message;
    msg.prefix.as_name_str().map(|s| s.to_string())
}

/// Relies on `twitch_message::parse` and `Tags::get`, which leaves out
/// empty values.
#[verifier::external_body]
pub(crate) fn line_tag(line: &str, key: &str) -> (r: Option<String>)
    ensures
        r.is_some() == tag_of(line@, key@).is_some(),
        r.is_some() ==> r.unwrap()@ == tag_of(line@, key@).unwrap(),
        r.is_some() ==> r.unwrap()@.len() > 0,
{
    let msg = twitch_message::parse(line).ok()?.message;
    msg.tags.get(key).map(|s| s.to_string())
}

/// Relies on `twitch_message::parse_badges`, which splits a `badges` tag
/// value into `(set, version)` pairs and unescapes the versions.
#[verifier::external_body]
pub(crate) fn split_badges(value: &str) -> (r: Vec<(String, String)>)
    ensures
        r@.len() == badges_in(value@).len(),
        forall|i: int| 0 <= i < r@.len() ==> (#[trigger] r@[i]).0@ == badges_in(value@)[i].0
            && r@[i].1@ == badges_in(value@)[i].1,
{
    twitch_message::parse_badges(value).map(|b| (b.name.to_string(), b.version.to_string())).collect()
}

/// Line end of the protocol.
pub open spec fn crlf() -> Seq<char> {
    seq!['\r', '\n']
}

/// A channel name with the `#` in front that the protocol wants.
pub open spec fn with_octo(channel: Seq<char>) -> Seq<char> {
    if channel.len() > 0 && channel[0] == '#' {
        channel
    } else {
        seq!['#'] + channel
    }
}

pub open spec fn join_text(channel: Seq<char>) -> Seq<char> {
    seq!['J', 'O', 'I', 'N', ' '] + with_octo(channel) + crlf()
}

pub open spec fn part_text(channel: Seq<char>) -> Seq<char> {
    seq!['P', 'A', 'R', 'T', ' '] + with_octo(channel) + crlf()
}

pub open spec fn ping_text(token: Seq<char>) -> Seq<char> {
    seq!['P', 'I', 'N', 'G', ' '] + token + crlf()
}

pub open spec fn pong_text(token: Seq<char>) -> Seq<char> {
    seq!['P', 'O', 'N', 'G', ' ', ':'] + token + crlf()
}

pub open spec fn privmsg_text(channel: Seq<char>, data: Seq<char>) -> Seq<char> {
    seq!['P', 'R', 'I', 'V', 'M', 'S', 'G', ' '] + with_octo(channel) + seq![' ', ':'] + data
        + crlf()
}

/// The capability requests, then `PASS` and `NICK`.
pub open spec fn register_text(name: Seq<char>, token: Seq<char>) -> Seq<char> {
    let cap = seq!['C', 'A', 'P', ' ', 'R', 'E', 'Q', ' ', 't', 'w', 'i', 't', 'c', 'h', '.', 't', 'v', '/'];
    cap + seq!['c', 'o', 'm', 'm', 'a', 'n', 'd', 's'] + crlf()
        + cap + seq!['m', 'e', 'm', 'b', 'e', 'r', 's', 'h', 'i', 'p'] + crlf()
        + cap + seq!['t', 'a', 'g', 's'] + crlf()
        + seq!['P', 'A', 'S', 'S', ' '] + token + crlf()
        + seq!['N', 'I', 'C', 'K', ' '] + name + crlf()
}

/// The decimal digit for `d < 10`.
pub open spec fn digit(d: nat) -> char {
    if d == 0 { '0' } else if d == 1 { '1' } else if d == 2 { '2' } else if d == 3 { '3' }
    else if d == 4 { '4' } else if d == 5 { '5' } else if d == 6 { '6' } else if d == 7 { '7' }
    else if d == 8 { '8' } else { '9' }
}

/// `n` written in decimal, without leading zeros.
pub open spec fn decimal_text(n: nat) -> Seq<char>
    decreases n,
{
    if n < 10 {
        seq![digit(n)]
    } else {
        decimal_text(n / 10).push(digit(n % 10))
    }
}

fn digit_str(d: u64) -> (r: &'static str)
    requires
        d < 10,
    ensures
        r@ == seq![digit(d as nat)],
{
    proof {
        reveal_strlit("0");
        reveal_strlit("1");
        reveal_strlit("2");
        reveal_strlit("3");
        reveal_strlit("4");
        reveal_strlit("5");
        reveal_strlit("6");
        reveal_strlit("7");
        reveal_strlit("8");
        reveal_strlit("9");
    }
    if d == 0 {
        "0"
    } else if d == 1 {
        "1"
    } else if d == 2 {
        "2"
    } else if d == 3 {
        "3"
    } else if d == 4 {
        "4"
    } else if d == 5 {
        "5"
    } else if d == 6 {
        "6"
    } else if d == 7 {
        "7"
    } else if d == 8 {
        "8"
    } else {
        "9"
    }
}

/// `n` in decimal digits.
pub fn decimal(n: u64) -> (r: String)
    ensures
        r@ == decimal_text(n as nat),
    decreases n,
{
    if n < 10 {
        digit_str(n).to_owned()
    } else {
        let head = decimal(n / 10);
        let r = head.concat(digit_str(n % 10));
        assert(r@ =~= decimal_text((n / 10) as nat).push(digit((n % 10) as nat)));
        r
    }
}

/// Relies on `twitch_message::encode::join`, written out by `Formattable`.
#[verifier::external_body]
pub(crate) fn join_line(channel: &str) -> (r: String)
    ensures
        r@ == join_text(channel@),
{
    let mut out = String::new();
    let _ = twitch_message::encode::Formattable::format(&twitch_message::encode::join(channel), &mut out);
    out
}

/// Relies on `twitch_message::encode::part`, written out by `Formattable`.
#[verifier::external_body]
pub(crate) fn part_line(channel: &str) -> (r: String)
    ensures
        r@ == part_text(channel@),
{
    let mut out = String::new();
    let _ = twitch_message::encode::Formattable::format(&twitch_message::encode::part(channel), &mut out);
    out
}

/// Relies on `twitch_message::encode::ping`, written out by `Formattable`.
#[verifier::external_body]
pub(crate) fn ping_line(token: &str) -> (r: String)
    ensures
        r@ == ping_text(token@),
{
    let mut out = String::new();
    let _ = twitch_message::encode::Formattable::format(&twitch_message::encode::ping(token), &mut out);
    out
}

/// Relies on `twitch_message::encode::pong`, written out by `Formattable`.
#[verifier::external_body]
pub(crate) fn pong_line(token: &str) -> (r: String)
    ensures
        r@ == pong_text(token@),
{
    let mut out = String::new();
    let _ = twitch_message::encode::Formattable::format(&twitch_message::encode::pong(token), &mut out);
    out
}

/// Relies on `twitch_message::encode::privmsg`, written out by `Formattable`.
#[verifier::external_body]
pub(crate) fn privmsg_line(channel: &str, data: &str) -> (r: String)
    ensures
        r@ == privmsg_text(channel@, data@),
{
    let mut out = String::new();
    let msg = twitch_message::encode::privmsg(channel, data);
    let _ = twitch_message::encode::Formattable::format(&msg, &mut out);
    out
}

/// Relies on `twitch_message::encode::register` with all three
/// capabilities, written out by `Formattable`.
#[verifier::external_body]
pub(crate) fn register_line(name: &str, token: &str) -> (r: String)
    ensures
        r@ == register_text(name@, token@),
{
    let mut out = String::new();
    let caps = twitch_message::encode::ALL_CAPABILITIES;
    let msg = twitch_message::encode::register(name, token, caps);
    let _ = twitch_message::encode::Formattable::format(&msg, &mut out);
    out
}

} // verus!
