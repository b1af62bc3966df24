use vohiyo::client::{Client, Config, LocalEcho, Message, Status, Writer};
use vohiyo::identity::Identity;
use vohiyo::session::{Event, WriteKind};

fn client() -> (
    Client,
    tokio::sync::mpsc::UnboundedSender<Event>,
    tokio::sync::mpsc::UnboundedReceiver<WriteKind>,
) {
    let (ev_tx, ev_rx) = tokio::sync::mpsc::unbounded_channel();
    let (cmd_tx, cmd_rx) = tokio::sync::mpsc::unbounded_channel();
    let (sig_tx, _sig_rx) = tokio::sync::oneshot::channel();
    let config = Config { name: "bot".to_string(), token: "t".to_string() };
    (Client::new(config, ev_rx, Writer::new(cmd_tx), sig_tx), ev_tx, cmd_rx)
}

fn user_state(id: Option<&str>) -> Event {
    Event::UserState {
        channel: "#a".to_string(),
        msg_id: id.map(str::to_string),
        badges: vec![("vip".to_string(), "1".to_string())],
    }
}

fn identity() -> Identity {
    Identity::assemble("bot".to_string(), None, "1".to_string(), None, vec![], &vec![])
}

#[test]
fn local_echo_is_finished_once() {
    let (mut c, _ev, mut cmds) = client();
    let mut id = Some(identity());
    let mut pending: Option<LocalEcho> = None;
    let echo = c.send_message("#a", "hello", &mut pending);
    assert_eq!(echo.channel, "#a");
    assert_eq!(echo.sender, "bot");
    assert_eq!(echo.data, "hello");
    assert!(pending.is_some());
    assert!(matches!(
        cmds.try_recv(),
        Ok(WriteKind::Send { target, data }) if target == "#a" && data == "hello"
    ));

    let r = c.handle(user_state(Some("xyz")), 0, &mut id, &mut pending);
    match r {
        Some(Message::Finished { echo, id }) => {
            assert_eq!(echo.data, "hello");
            assert_eq!(id, "xyz");
        }
        _ => panic!("expected the finished message"),
    }
    assert!(pending.is_none());
    assert!(c.handle(user_state(Some("next")), 0, &mut id, &mut pending).is_none());
    c.join("#b");
    c.part("#b");
    assert!(matches!(cmds.try_recv(), Ok(WriteKind::Join { channel }) if channel == "#b"));
    assert!(matches!(cmds.try_recv(), Ok(WriteKind::Part { channel }) if channel == "#b"));
    assert_eq!(
        id.as_ref().unwrap().get_badges_for("a"),
        vec![("vip".to_string(), "1".to_string())]
    );
}

#[test]
fn status_follows_connection_events() {
    let (mut c, ev, _cmds) = client();
    let mut id = None;
    let mut pending = None;
    assert_eq!(c.status(), Status::NotConnected);
    assert!(c.poll(1, &mut id, &mut pending).is_none());
    ev.send(Event::Connecting).unwrap();
    assert!(c.poll(1, &mut id, &mut pending).is_none());
    assert_eq!(c.status(), Status::Connecting);
    ev.send(Event::Connected { identity: identity() }).unwrap();
    c.poll(2, &mut id, &mut pending);
    assert_eq!(c.status(), Status::Connected);
    assert_eq!(id.as_ref().map(|i| i.name.as_str()), Some("bot"));
    ev.send(Event::Reconnecting { after_ms: 5000 }).unwrap();
    c.poll(3, &mut id, &mut pending);
    assert_eq!(c.status(), Status::Reconnecting { since_ms: 3, after_ms: 5000 });
    ev.send(Event::InvalidCredentials).unwrap();
    assert!(matches!(c.poll(4, &mut id, &mut pending), Some(Message::InvalidCredentials)));
    ev.send(Event::ChannelId { channel: "#a".to_string(), room_id: "42".to_string() }).unwrap();
    assert!(matches!(
        c.poll(5, &mut id, &mut pending),
        Some(Message::ChannelMetadata { channel, room_id }) if channel == "#a" && room_id == "42"
    ));
    ev.send(Event::Join { channel: "#a".to_string() }).unwrap();
    assert!(matches!(c.poll(5, &mut id, &mut pending), Some(Message::Join { channel }) if channel == "#a"));
}

#[test]
fn connect_sends_start_once() {
    let (ev_tx, ev_rx) = tokio::sync::mpsc::unbounded_channel::<Event>();
    let (cmd_tx, _cmd_rx) = tokio::sync::mpsc::unbounded_channel();
    let (sig_tx, mut sig_rx) = tokio::sync::oneshot::channel();
    let config = Config { name: "bot".to_string(), token: "t".to_string() };
    let mut c = Client::new(config, ev_rx, Writer::new(cmd_tx), sig_tx);
    assert_eq!(c.user_name(), "bot");
    c.connect();
    c.connect();
    assert_eq!(sig_rx.try_recv().ok(), Some(vohiyo::client::Signal::Start));
    drop(ev_tx);
}

#[test]
fn badges_merge_per_channel() {
    let mut id = identity();
    id.append_badges("#a", &vec![("sub".to_string(), "1".to_string()), ("vip".to_string(), "1".to_string())]);
    id.append_badges("a", &vec![("sub".to_string(), "2".to_string())]);
    let mut got = id.get_badges_for("#a");
    got.sort();
    assert_eq!(got, vec![("sub".to_string(), "2".to_string()), ("vip".to_string(), "1".to_string())]);
    assert!(id.get_badges_for("b").is_empty());
}
