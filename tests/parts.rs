use std::cell::Cell;

use vohiyo::config::{Loaded, ValidationError, Validator};
use vohiyo::data::{Badge, BadgeVersion, EmoteSet, Game, User};
use vohiyo::domain::{GameMap, MetadataClient, UserMap};
use vohiyo::emotes::{animated_url, badge_key, make_emote_url, pick, static_url, EmoteFetcher, EmoteMap};
use vohiyo::fut::Fut;
use vohiyo::input::Input;
use vohiyo::queue::Queue;
use vohiyo::screen::{Field, NotReadyApp};
use vohiyo::text::{split_commas, strip_channel};

#[derive(Default)]
struct FakeHelix {
    games: Cell<usize>,
    users: Cell<usize>,
}

fn never<T>() -> Fut<T> {
    let (tx, rx) = tokio::sync::oneshot::channel();
    std::mem::forget(tx);
    Fut::new(rx)
}

fn ready<T>(value: T) -> Fut<T> {
    let (tx, rx) = tokio::sync::oneshot::channel();
    let _ = tx.send(value);
    Fut::new(rx)
}

impl MetadataClient for FakeHelix {
    fn get_game(&self, id: &str) -> Fut<Option<Game>> {
        self.games.set(self.games.get() + 1);
        ready(Some(Game {
            box_art_url: "https://x/{width}x{height}/{width}.jpg".to_string(),
            id: id.to_string(),
            igdb_id: String::new(),
            name: "G".to_string(),
        }))
    }

    fn get_user(&self, login: &str) -> Fut<Option<(String, User)>> {
        self.users.set(self.users.get() + 1);
        ready(Some((
            login.to_string(),
            User {
                display_name: login.to_uppercase(),
                id: "7".to_string(),
                login: login.to_string(),
                description: None,
                created_at: 0,
                profile_image_url: String::new(),
            },
        )))
    }

    fn get_global_badges(&self) -> Fut<(Option<String>, Vec<Badge>)> {
        ready((
            None,
            vec![Badge {
                set_id: "vip".to_string(),
                versions: vec![BadgeVersion {
                    id: "1".to_string(),
                    description: String::new(),
                    image_url_1x: "https://b/vip1".to_string(),
                    image_url_2x: String::new(),
                    image_url_4x: String::new(),
                }],
            }],
        ))
    }

    fn get_channel_badges(&self, _id: &str) -> Fut<(Option<String>, Vec<Badge>)> {
        never()
    }

    fn get_global_emotes(&self) -> Fut<Vec<EmoteSet>> {
        ready(vec![emote_set("25", "Kappa")])
    }

    fn get_channel_emotes(&self, _id: &str) -> Fut<Vec<EmoteSet>> {
        never()
    }

    fn get_emote_set(&self, _id: &str) -> Fut<Vec<EmoteSet>> {
        never()
    }
}

fn emote_set(id: &str, name: &str) -> EmoteSet {
    EmoteSet {
        format: vec!["static".to_string()],
        id: id.to_string(),
        name: name.to_string(),
        scale: vec!["1.0".to_string(), "3.0".to_string()],
        theme_mode: vec!["light".to_string(), "dark".to_string()],
        emote_set_id: String::new(),
        emote_type: String::new(),
        owner_id: String::new(),
    }
}

#[test]
fn chat_box_lines_parse() {
    assert!(matches!(Input::parse("hello"), Input::Send { data: "hello" }));
    assert!(matches!(Input::parse(""), Input::Send { data: "" }));
    assert!(matches!(Input::parse("/join museun"), Input::Join { channel: "museun" }));
    assert!(matches!(Input::parse("/enter #a b"), Input::Join { channel: "#a b" }));
    assert!(matches!(Input::parse("/part a"), Input::Part { channel: "a" }));
    assert!(matches!(Input::parse("/leave a"), Input::Part { channel: "a" }));
    assert!(matches!(
        Input::parse("/join "),
        Input::Usage { cmd: "/join", message: "syntax: /join channel" }
    ));
    assert!(matches!(
        Input::parse("/part "),
        Input::Usage { cmd: "/part", message: "syntax: /part channel" }
    ));
    assert!(matches!(Input::parse("/join"), Input::Unknown { data: "/join" }));
    assert!(matches!(Input::parse("/me waves"), Input::Unknown { data: "/me waves" }));
}

#[test]
fn queue_drops_oldest_when_full() {
    let mut q = Queue::with_capacity(2);
    q.push(1);
    q.push(2);
    q.push(3);
    assert_eq!(q.iter().copied().collect::<Vec<_>>(), vec![2, 3]);
    assert_eq!(q.len(), 2);
    let mut one = Queue::with_capacity(1);
    one.push("a");
    one.push("b");
    assert_eq!(one.iter().copied().collect::<Vec<_>>(), vec!["b"]);
}

#[test]
fn settings_rules() {
    assert_eq!(Validator::user_name("  "), Err(ValidationError::EmptyInput));
    assert_eq!(Validator::user_name(" bot "), Ok(()));
    assert_eq!(Validator::oauth_token("token"), Err(ValidationError::TokenPrefix));
    assert_eq!(
        Validator::oauth_token("oauth:abc"),
        Err(ValidationError::InvalidLength { have: 9, require: 36 })
    );
    let token = format!("oauth:{}", "a".repeat(30));
    assert_eq!(Validator::oauth_token(&format!(" {token} ")), Ok(()));
    assert_eq!(Validator::client_id(&"x".repeat(30)), Ok(()));
    assert_eq!(
        Validator::client_secret("short"),
        Err(ValidationError::InvalidLength { have: 5, require: 30 })
    );
    assert_eq!(Validator::client_id(""), Err(ValidationError::EmptyInput));
    assert_eq!(Validator::validate_length("é", 2), Ok(()));
}

#[test]
fn settings_messages() {
    assert_eq!(ValidationError::TokenPrefix.as_error(), "OAuth token must start with `oauth:`");
    assert_eq!(ValidationError::EmptyInput.as_error(), "the input is empty");
    assert_eq!(
        ValidationError::InvalidLength { have: 12, require: 30 }.as_error(),
        "invalid length:\nrequirement: 30\nhave: 12"
    );
}

#[test]
fn setup_screen_rows() {
    let loaded = Loaded {
        active: 0,
        user_name: "bot".to_string(),
        oauth_token: format!("oauth:{}", "a".repeat(30)),
        client_id: "x".repeat(30),
        client_secret: "y".repeat(30),
        channels: vec![],
    };
    let app = NotReadyApp::create(loaded);
    let rows = app.values();
    assert_eq!(rows[0].0, "User Name");
    assert_eq!(rows[1].0, "OAuth Token");
    assert!(rows[1].2);
    assert_eq!(rows[3].3, Field::ClientSecret);
    assert!(rows.iter().all(|(_, v, _, f)| f.check(v).is_ok()));
    assert!(app.ready());
    assert_eq!(Validator::validate(&app.loaded), Ok(()));
}

#[test]
fn text_helpers() {
    assert_eq!(strip_channel("#a"), "a");
    assert_eq!(strip_channel("a"), "a");
    assert_eq!(strip_channel("##a"), "#a");
    assert_eq!(split_commas("0,33,"), vec!["0", "33", ""]);
    assert_eq!(split_commas(""), vec![""]);
}

#[test]
fn emote_addresses() {
    assert_eq!(animated_url("25"), "https://static-cdn.jtvnw.net/emoticons/v2/25/animated/dark/1.0");
    assert_eq!(static_url("25"), "https://static-cdn.jtvnw.net/emoticons/v2/25/static/dark/1.0");
    assert_eq!(make_emote_url(&emote_set("25", "Kappa")), "https://static-cdn.jtvnw.net/emoticons/v2/25/static/dark/1.0");
    let mut e = emote_set("1", "X");
    e.scale = vec!["2.0".to_string(), "3.0".to_string()];
    e.format = vec!["animated".to_string()];
    e.theme_mode = vec![];
    assert_eq!(make_emote_url(&e), "https://static-cdn.jtvnw.net/emoticons/v2/1/animated/light/3.0");
    assert_eq!(pick(&vec![], "1.0", None), "1.0");
    assert_eq!(
        vohiyo::emotes::probe_urls("7"),
        vec![
            "https://static-cdn.jtvnw.net/emoticons/v2/7/animated/dark/1.0".to_string(),
            "https://static-cdn.jtvnw.net/emoticons/v2/7/static/dark/1.0".to_string()
        ]
    );
    assert_eq!(vohiyo::domain::after_status(401, false), vohiyo::domain::RetryStep::RefreshAndRetry);
    assert_eq!(vohiyo::domain::after_status(401, true), vohiyo::domain::RetryStep::Done);
    assert_eq!(vohiyo::domain::after_status(200, false), vohiyo::domain::RetryStep::Done);
    assert_eq!(vohiyo::wire::decimal(0), "0");
    assert_eq!(vohiyo::wire::decimal(1230), "1230");
    assert_eq!(vohiyo::wire::decimal(u64::MAX), u64::MAX.to_string());
    assert_eq!(badge_key("-", "vip", "1"), "- vip 1");
}

#[test]
fn games_are_fetched_once_and_sized() {
    let mut games = GameMap::create(FakeHelix::default());
    assert!(games.get("42").is_none());
    assert!(games.get("42").is_none());
    games.poll();
    let game = games.get("42").expect("fetched");
    assert_eq!(game.box_art_url, "https://x/144x152/144.jpg");
}

#[test]
fn users_are_keyed_by_login_without_octothorpe() {
    let mut users = UserMap::create(FakeHelix::default());
    assert!(users.get("#museun").is_none());
    assert!(users.get("museun").is_none());
    users.poll();
    assert_eq!(users.get("museun").map(|u| u.display_name.as_str()), Some("MUSEUN"));
    assert_eq!(users.get("#museun").map(|u| u.id.as_str()), Some("7"));
}

#[test]
fn emote_map_collects_sets_and_badges() {
    let (probe_tx, mut probe_rx) = tokio::sync::mpsc::unbounded_channel();
    let (found_tx, found_rx) = tokio::sync::mpsc::unbounded_channel();
    let fetcher = EmoteFetcher::create(probe_tx, found_rx);
    let mut map = EmoteMap::create(FakeHelix::default(), fetcher);
    map.poll();
    assert_eq!(map.get_emote_id("Kappa"), Some("25"));
    assert_eq!(
        map.get_emote_url("25"),
        Some("https://static-cdn.jtvnw.net/emoticons/v2/25/static/dark/1.0")
    );
    assert_eq!(map.get_badge_url("vip", "1"), Some("https://b/vip1"));
    assert_eq!(map.get_channel_badge_url("99", "vip", "1"), Some("https://b/vip1"));
    assert_eq!(map.get_badge_url("vip", "2"), None);

    map.insert_emote("300", "Other");
    map.insert_emote("300", "Other");
    assert_eq!(probe_rx.try_recv().ok().as_deref(), Some("300"));
    assert!(probe_rx.try_recv().is_err());
    found_tx.send(("300".to_string(), "https://e/300".to_string())).unwrap();
    map.poll();
    assert_eq!(map.get_emote_url("300"), Some("https://e/300"));
    assert_eq!(map.get_emote_id("Other"), Some("300"));
}

struct FakeImages {
    asked: Cell<usize>,
}

impl vohiyo::domain::ImageSource<Vec<u8>> for FakeImages {
    fn get_image(&self, url: &str) -> Fut<(String, Option<Vec<u8>>)> {
        self.asked.set(self.asked.get() + 1);
        let image = if url.ends_with(".png") { Some(vec![1, 2, 3]) } else { None };
        ready((url.to_string(), image))
    }
}

#[test]
fn images_are_downloaded_once() {
    let mut cache = vohiyo::domain::ImageCache::new(FakeImages { asked: Cell::new(0) });
    assert!(cache.get_image("https://i/a.png").is_none());
    assert!(cache.get_image("https://i/a.png").is_none());
    assert!(cache.get_image("https://i/broken").is_none());
    cache.poll();
    assert_eq!(cache.get_image("https://i/a.png"), Some(&vec![1, 2, 3]));
    assert!(cache.get_image("https://i/broken").is_none());
    cache.set("https://i/b.png".to_string(), vec![9]);
    assert_eq!(cache.get_image("https://i/b.png"), Some(&vec![9]));
}
