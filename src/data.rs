use vstd::prelude::*;

verus! {

/// The credentials of the application with the metadata service.
pub struct HelixConfig {
    pub client_id: String,
    pub client_secret: String,
}

/// One emote of an emote set, with the variants its images come in.
pub struct EmoteSet {
    pub format: Vec<String>,
    pub id: String,
    pub name: String,
    pub scale: Vec<String>,
    pub theme_mode: Vec<String>,
    pub emote_set_id: String,
    pub emote_type: String,
    pub owner_id: String,
}

/// A badge set and its versions.
pub struct Badge {
    pub set_id: String,
    pub versions: Vec<BadgeVersion>,
}

pub struct BadgeVersion {
    pub id: String,
    pub description: String,
    pub image_url_1x: String,
    pub image_url_2x: String,
    pub image_url_4x: String,
}

/// A live stream, as the metadata service describes it.
pub struct Stream {
    pub game_name: String,
    pub game_id: String,
    pub id: String,
    /// When the stream went live, in seconds since the Unix epoch.
    pub started_at: Option<i64>,
    pub title: String,
    pub stream_type: Option<String>,
    pub user_id: String,
    pub user_login: String,
    pub viewer_count: i64,
}

pub struct User {
    pub display_name: String,
    pub id: String,
    pub login: String,
    pub description: Option<String>,
    /// When the account was made, in seconds since the Unix epoch.
    pub created_at: i64,
    pub profile_image_url: String,
}

pub struct Game {
    /// A template with `{width}` and `{height}` in it, until the cache
    /// fills them in.
    pub box_art_url: String,
    pub id: String,
    pub igdb_id: String,
    pub name: String,
}

} // verus!
