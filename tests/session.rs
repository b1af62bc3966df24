use vohiyo::frame::{read_frame, Frame};
use vohiyo::session::{Action, Input, Phase, Event, Session, WriteKind};

fn writes(actions: &[Action]) -> Vec<String> {
    actions
        .iter()
        .filter_map(|a| match a {
            Action::Write(line) => Some(line.clone()),
            _ => None,
        })
        .collect()
}

fn line(s: &str, now: u64) -> Input {
    Input::Received { line: s.to_string(), now }
}

fn join(channel: &str) -> Input {
    Input::Command { command: WriteKind::Join { channel: channel.to_string() } }
}

const GREETING: &str = ":tmi.twitch.tv 376 bot :>";
const GLOBAL: &str =
    "@badge-info=;badges=premium/1;color=#FF0000;display-name=Bot;emote-sets=0,33;user-id=123;user-type= :tmi.twitch.tv GLOBALUSERSTATE";

fn online(keepalive: u64) -> Session {
    let mut s = Session::new("bot".to_string(), "oauth:secret".to_string(), keepalive);
    let a = s.step(Input::Signal { start: true });
    assert!(matches!(a[0], Action::Emit(Event::Connecting)));
    assert!(matches!(a[1], Action::Connect));
    s.step(Input::Opened { now: 0 });
    s.step(line(GREETING, 0));
    s.step(line(GLOBAL, 0));
    s
}

#[test]
fn start_signal_connects_and_registers() {
    let mut s = Session::new("bot".to_string(), "oauth:secret".to_string(), 30_000);
    assert_eq!(s.phase(), Phase::Idle);
    let a = s.step(Input::Signal { start: true });
    assert_eq!(a.len(), 2);
    assert_eq!(s.phase(), Phase::Connecting);
    let a = s.step(Input::Opened { now: 0 });
    assert_eq!(s.phase(), Phase::Connected);
    assert_eq!(
        writes(&a),
        vec![
            "CAP REQ twitch.tv/commands\r\nCAP REQ twitch.tv/membership\r\nCAP REQ twitch.tv/tags\r\nPASS oauth:secret\r\nNICK bot\r\n"
                .to_string()
        ]
    );
}

#[test]
fn ignore_signal_stops_for_good() {
    let mut s = Session::new("bot".to_string(), "t".to_string(), 30_000);
    let a = s.step(Input::Signal { start: false });
    assert!(matches!(a[..], [Action::Stop]));
    assert_eq!(s.phase(), Phase::Stopped);
    assert!(s.step(Input::Signal { start: true }).is_empty());
}

#[test]
fn channels_survive_a_drop_and_are_rejoined() {
    let mut s = Session::new("bot".to_string(), "oauth:secret".to_string(), 30_000);
    assert!(s.step(join("a")).is_empty());
    assert!(s.step(join("#b")).is_empty());
    s.step(Input::Signal { start: true });
    s.step(Input::Opened { now: 0 });
    assert!(s.step(line(GREETING, 10)).is_empty());
    let a = s.step(line(GLOBAL, 20));
    match &a[0] {
        Action::Emit(Event::Connected { identity }) => {
            assert_eq!(identity.name, "bot");
            assert_eq!(identity.user_id, "123");
            assert_eq!(identity.display_name.as_deref(), Some("Bot"));
            assert_eq!(identity.color.as_deref(), Some("#FF0000"));
            assert_eq!(identity.emote_sets, vec!["0".to_string(), "33".to_string()]);
            assert_eq!(identity.get_badges_for("bot"), vec![("premium".to_string(), "1".to_string())]);
        }
        _ => panic!("expected the connected event first"),
    }
    assert_eq!(writes(&a), vec!["JOIN #a\r\n".to_string(), "JOIN #b\r\n".to_string()]);

    let a = s.step(Input::ReadFailed);
    assert!(matches!(a[0], Action::Emit(Event::Reconnecting { after_ms: 5000 })));
    assert!(matches!(a[1], Action::Sleep(5000)));
    assert_eq!(s.phase(), Phase::Waiting);
    assert_eq!(s.active_channels(), vec!["a".to_string(), "#b".to_string()]);

    s.step(Input::Waited);
    assert_eq!(s.phase(), Phase::Connecting);
    s.step(Input::Opened { now: 6000 });
    s.step(line(GREETING, 6010));
    let a = s.step(line(GLOBAL, 6020));
    assert_eq!(writes(&a), vec!["JOIN #a\r\n".to_string(), "JOIN #b\r\n".to_string()]);
    assert!(a.iter().all(|x| !matches!(x, Action::Emit(Event::Privmsg { .. }))));
}

#[test]
fn part_leaves_the_set_and_writes_part() {
    let mut s = online(30_000);
    s.step(join("a"));
    let a = s.step(Input::Command { command: WriteKind::Part { channel: "a".to_string() } });
    assert_eq!(writes(&a), vec!["PART #a\r\n".to_string()]);
    assert!(s.active_channels().is_empty());
}

#[test]
fn two_silent_intervals_time_out() {
    let mut s = online(30_000);
    let a = s.step(Input::Quiet { now: 30_000 });
    assert_eq!(writes(&a), vec!["PING 30\r\n".to_string()]);
    assert_eq!(s.phase(), Phase::Connected);
    let a = s.step(Input::Quiet { now: 60_000 });
    assert!(matches!(a[0], Action::Emit(Event::Reconnecting { after_ms: 5000 })));
    assert_eq!(s.phase(), Phase::Waiting);
}

#[test]
fn a_frame_resets_the_keepalive_clock() {
    let mut s = online(30_000);
    s.step(line(GREETING, 45_000));
    let a = s.step(Input::Quiet { now: 60_000 });
    assert_eq!(writes(&a), vec!["PING 60\r\n".to_string()]);
    assert_eq!(s.phase(), Phase::Connected);
}

#[test]
fn server_ping_is_answered() {
    let mut s = online(30_000);
    let a = s.step(line("PING :tmi.twitch.tv", 5));
    assert_eq!(writes(&a), vec!["PONG :tmi.twitch.tv\r\n".to_string()]);
}

#[test]
fn rejected_credentials_end_the_session() {
    let mut s = online(30_000);
    let a = s.step(line(":tmi.twitch.tv NOTICE * :Login authentication failed", 5));
    assert_eq!(a.len(), 2);
    assert!(matches!(a[0], Action::Emit(Event::InvalidCredentials)));
    assert!(matches!(a[1], Action::Stop));
    assert_eq!(s.phase(), Phase::Stopped);
    assert!(s.step(Input::ReadFailed).is_empty());
    assert!(s.step(Input::Waited).is_empty());
    assert!(s.step(Input::Signal { start: true }).is_empty());
}

#[test]
fn other_notices_are_ignored() {
    let mut s = online(30_000);
    assert!(s.step(line(":tmi.twitch.tv NOTICE #a :slow mode", 5)).is_empty());
    assert_eq!(s.phase(), Phase::Connected);
}

#[test]
fn unreadable_line_reconnects() {
    let mut s = online(30_000);
    let a = s.step(line(":tmi.twitch.tv 99999999 bot :x", 5));
    assert!(matches!(a[0], Action::Emit(Event::Reconnecting { .. })));
    assert_eq!(s.phase(), Phase::Waiting);
}

#[test]
fn connect_and_write_failures_reconnect() {
    let mut s = Session::new("bot".to_string(), "t".to_string(), 30_000);
    s.step(Input::Signal { start: true });
    let a = s.step(Input::OpenFailed);
    assert!(matches!(a[0], Action::Emit(Event::Reconnecting { after_ms: 5000 })));
    s.step(Input::Waited);
    s.step(Input::Opened { now: 0 });
    s.step(Input::WriteFailed);
    assert_eq!(s.phase(), Phase::Waiting);
}

#[test]
fn chat_and_channel_frames_become_events() {
    let mut s = online(30_000);
    s.step(line(GREETING, 1));
    let a = s.step(line(":bot!bot@bot.tmi.twitch.tv JOIN #a", 2));
    assert!(matches!(&a[..], [Action::Emit(Event::Join { channel })] if channel == "#a"));
    assert!(s.step(line(":other!other@other.tmi.twitch.tv JOIN #a", 3)).is_empty());
    let a = s.step(line("@room-id=42 :tmi.twitch.tv ROOMSTATE #a", 4));
    assert!(matches!(&a[..], [Action::Emit(Event::ChannelId { channel, room_id })] if channel == "#a" && room_id == "42"));
    let a = s.step(line("@id=abc;badges=moderator/1,subscriber/12 :tmi.twitch.tv USERSTATE #a", 5));
    match &a[..] {
        [Action::Emit(Event::UserState { channel, msg_id, badges })] => {
            assert_eq!(channel, "#a");
            assert_eq!(msg_id.as_deref(), Some("abc"));
            assert_eq!(
                badges,
                &vec![("moderator".to_string(), "1".to_string()), ("subscriber".to_string(), "12".to_string())]
            );
        }
        _ => panic!("expected a user state event"),
    }
    let raw = "@id=m1 :alice!alice@alice.tmi.twitch.tv PRIVMSG #a :hello there";
    let a = s.step(line(raw, 6));
    match &a[..] {
        [Action::Emit(Event::Privmsg { channel, sender, data, msg_id, raw: r })] => {
            assert_eq!(channel, "#a");
            assert_eq!(sender, "alice");
            assert_eq!(data, "hello there");
            assert_eq!(msg_id.as_deref(), Some("m1"));
            assert_eq!(r, raw);
        }
        _ => panic!("expected a chat event"),
    }
}

#[test]
fn messages_sent_offline_are_held_until_registration() {
    let mut s = Session::new("bot".to_string(), "t".to_string(), 30_000);
    let send = Input::Command {
        command: WriteKind::Send { target: "a".to_string(), data: "hi".to_string() },
    };
    assert!(s.step(send).is_empty());
    s.step(Input::Signal { start: true });
    s.step(Input::Opened { now: 0 });
    s.step(line(GREETING, 1));
    let a = s.step(line(GLOBAL, 2));
    assert_eq!(writes(&a), vec!["PRIVMSG #a :hi\r\n".to_string()]);
    let send = Input::Command {
        command: WriteKind::Send { target: "#a".to_string(), data: "again".to_string() },
    };
    assert_eq!(writes(&s.step(send)), vec!["PRIVMSG #a :again\r\n".to_string()]);
}

#[test]
fn closed_queues_stop_the_session() {
    let mut s = online(30_000);
    assert!(matches!(s.step(Input::CommandsClosed)[..], [Action::Stop]));
    let mut s = online(30_000);
    assert!(matches!(s.step(Input::EventsClosed)[..], [Action::Stop]));
    assert_eq!(s.phase(), Phase::Stopped);
}

#[test]
fn global_state_before_greeting_uses_the_login_name() {
    let mut s = Session::new("bot".to_string(), "t".to_string(), 30_000);
    s.step(join("a"));
    s.step(Input::Signal { start: true });
    s.step(Input::Opened { now: 0 });
    let a = s.step(line(":tmi.twitch.tv GLOBALUSERSTATE", 1));
    match &a[0] {
        Action::Emit(Event::Connected { identity }) => {
            assert_eq!(identity.name, "bot");
            assert_eq!(identity.user_id, "");
        }
        _ => panic!("expected the connected event"),
    }
    assert_eq!(writes(&a), vec!["JOIN #a\r\n".to_string()]);
}

#[test]
fn joins_before_registration_are_written_once() {
    let mut s = Session::new("bot".to_string(), "t".to_string(), 30_000);
    s.step(Input::Signal { start: true });
    s.step(Input::Opened { now: 0 });
    assert!(s.step(join("a")).is_empty());
    s.step(line(GREETING, 1));
    let a = s.step(line(GLOBAL, 2));
    assert_eq!(writes(&a), vec!["JOIN #a\r\n".to_string()]);
    assert_eq!(writes(&s.step(join("b"))), vec!["JOIN #b\r\n".to_string()]);
}

#[test]
fn commands_while_waiting_change_the_set() {
    let mut s = online(30_000);
    s.step(Input::ReadFailed);
    assert!(s.step(join("late")).is_empty());
    assert_eq!(s.active_channels(), vec!["late".to_string()]);
    s.step(Input::Waited);
    s.step(Input::Opened { now: 7000 });
    let a = s.step(line(GLOBAL, 7001));
    assert_eq!(writes(&a), vec!["JOIN #late\r\n".to_string()]);
}

#[test]
fn parts_and_messages_are_encoded() {
    let mut s = online(30_000);
    let a = s.step(Input::Command { command: WriteKind::Part { channel: "#x".to_string() } });
    assert_eq!(writes(&a), vec!["PART #x\r\n".to_string()]);
    let send = Input::Command {
        command: WriteKind::Send { target: "test".to_string(), data: "hello, world".to_string() },
    };
    assert_eq!(writes(&s.step(send)), vec!["PRIVMSG #test :hello, world\r\n".to_string()]);
    let a = s.step(Input::Quiet { now: 12_000 });
    assert_eq!(writes(&a), vec!["PING 12\r\n".to_string()]);
}

#[test]
fn frames_read_from_lines() {
    assert!(read_frame(":tmi.twitch.tv 99999999 x").is_none());
    assert!(matches!(read_frame(GREETING), Some(Frame::Ready { name }) if name == "bot"));
    assert!(matches!(read_frame("PING :123"), Some(Frame::Ping { token }) if token == "123"));
    assert!(matches!(read_frame(":tmi.twitch.tv CAP * ACK :twitch.tv/tags"), Some(Frame::Other)));
}
