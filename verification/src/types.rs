//! The entities of the social network, as the instance describes them.
//!
//! These are plain records. Times are counted from the start of 1970 in
//! UTC; a value that the instance gives as free-form data is kept as its
//! text.

use vstd::prelude::*;

verus! {

/// A point in time: seconds since the start of 1970 in UTC, and the
/// nanoseconds of the second that has begun.
pub struct Timestamp {
    pub secs: i64,
    pub nanos: u32,
}

/// A day of the calendar.
pub struct Date {
    pub year: i32,
    pub month: u32,
    pub day: u32,
}

/// An account on an instance.
pub struct Account {
    pub id: String,
    pub username: String,
    pub acct: String,
    pub url: String,
    pub display_name: String,
    pub note: String,
    pub avatar: String,
    pub avatar_static: String,
    pub header: String,
    pub header_static: String,
    pub locked: bool,
    pub fields: Vec<Field>,
    pub emojis: Vec<CustomEmoji>,
    pub bot: bool,
    pub group: bool,
    pub discoverable: Option<bool>,
    pub no_index: Option<bool>,
    pub moved: Option<Box<Account>>,
    pub suspended: Option<bool>,
    pub limited: Option<bool>,
    pub created_at: Timestamp,
    pub last_status_at: Option<Date>,
    pub statuses_count: u64,
    pub followers_count: u64,
    pub following_count: u64,
    pub source: Option<AccountSource>,
    pub role: Option<Role>,
}

/// What an account says of itself, for its owner.
pub struct AccountSource {
    pub note: String,
    pub fields: Vec<Field>,
    pub privacy: Visibility,
    pub sensitive: bool,
    pub language: Option<String>,
    pub follow_requests_count: u64,
}

/// A client program that is registered with an instance.
pub struct Application {
    pub name: String,
    pub website: Option<String>,
    pub vapid_key: String,
    pub client_id: Option<String>,
    pub client_secret: Option<String>,
}

/// An emoji that an instance defines.
pub struct CustomEmoji {
    pub shortcode: String,
    pub url: String,
    pub static_url: String,
    pub visible_in_picker: bool,
    pub category: Option<String>,
}

/// A line of the table on a profile.
pub struct Field {
    pub name: String,
    pub value: String,
    pub verified_at: Option<Timestamp>,
}

/// A filter that the user has set up.
pub struct Filter {
    pub id: String,
    pub title: String,
    pub context: FilterContext,
    pub expires_at: Option<Timestamp>,
    pub filter_action: FilterAction,
    pub keywords: Vec<FilterKeyword>,
    pub statuses: Vec<FilterStatus>,
}

/// What a filter does with what it matches.
pub enum FilterAction {
    Warn,
    Hide,
}

/// Where a filter applies.
pub enum FilterContext {
    Home,
    Notifications,
    Public,
    Thread,
    Account,
}

/// A word that a filter looks for.
pub struct FilterKeyword {
    pub id: String,
    pub keyword: String,
    pub whole_word: bool,
}

/// A filter that matched a status.
pub struct FilterResult {
    pub filter: Filter,
    pub keyword_matches: Option<Vec<String>>,
    pub status_matches: Option<String>,
}

/// A status that a filter names.
pub struct FilterStatus {
    pub id: String,
    pub status_id: String,
}

/// A file attached to a status.
pub struct MediaAttachment {
    pub id: String,
    pub media_type: MediaType,
    pub url: String,
    pub preview_url: String,
    pub remote_url: Option<String>,
    pub meta: String,
    pub description: Option<String>,
    pub blurhash: String,
}

/// The kind of an attached file.
pub enum MediaType {
    Unknown,
    Image,
    Gifv,
    Video,
    Audio,
}

/// A poll attached to a status.
pub struct Poll {
    pub id: String,
    pub expires_at: Option<Timestamp>,
    pub expired: bool,
    pub multiple: bool,
    pub votes_count: u64,
    pub voters_count: Option<u64>,
    pub options: Vec<PollOption>,
    pub emojis: Vec<CustomEmoji>,
    pub voted: bool,
    pub own_votes: Vec<usize>,
}

/// One of the answers of a poll.
pub struct PollOption {
    pub title: String,
    pub votes_count: Option<u64>,
}

/// The preview of a link in a status.
pub struct PreviewCard {
    pub url: String,
    pub title: String,
    pub description: String,
    pub card_type: PreviewCardType,
    pub author_name: String,
    pub author_url: String,
    pub provider_name: String,
    pub provider_url: String,
    pub html: String,
    pub width: u64,
    pub height: u64,
    pub image: Option<String>,
    pub embed_url: String,
    pub blurhash: Option<String>,
    pub history: Option<Vec<TrendsHistory>>,
}

/// How often a link was used on one day.
pub struct TrendsHistory {
    pub day: String,
    pub accounts: String,
    pub uses: String,
}

/// The kind of a preview.
pub enum PreviewCardType {
    Link,
    Photo,
    Video,
    Rich,
}

/// A role that an account has on its instance.
pub struct Role {
    pub id: String,
    pub name: String,
    pub color: String,
    pub position: Option<u64>,
    pub permissions: String,
    pub highlighted: bool,
    pub created_at: Option<Timestamp>,
    pub updated_at: Option<Timestamp>,
}

/// A status: a post.
pub struct Status {
    pub id: String,
    pub uri: String,
    pub created_at: Timestamp,
    pub account: Account,
    pub content: String,
    pub visibility: Visibility,
    pub sensitive: bool,
    pub spoiler_text: String,
    pub media_attachments: Vec<MediaAttachment>,
    pub application: Option<StatusApplication>,
    pub mentions: Vec<StatusMention>,
    pub tags: Vec<StatusTag>,
    pub emojis: Vec<CustomEmoji>,
    pub reblogs_count: u64,
    pub favourites_count: u64,
    pub replies_count: u64,
    pub url: Option<String>,
    pub in_reply_to_id: Option<String>,
    pub in_reply_to_account_id: Option<String>,
    pub reblog: Option<Box<Status>>,
    pub poll: Option<Poll>,
    pub card: Option<PreviewCard>,
    pub language: Option<String>,
    pub text: Option<String>,
    pub edited_at: Option<Timestamp>,
    pub favourited: bool,
    pub reblogged: bool,
    pub muted: bool,
    pub bookmarked: bool,
    pub pinned: Option<bool>,
    pub filter: Option<Vec<FilterResult>>,
}

/// The program with which a status was posted.
pub struct StatusApplication {
    pub name: String,
    pub website: Option<String>,
}

/// An account that a status mentions.
pub struct StatusMention {
    pub id: String,
    pub username: String,
    pub url: String,
    pub acct: String,
}

/// A hashtag in a status.
pub struct StatusTag {
    pub name: String,
    pub url: String,
}

/// A token that gives access to an account.
pub struct Token {
    pub access_token: String,
    pub token_type: String,
    pub scope: String,
    pub created_at: u64,
}

/// Who can see a status.
pub enum Visibility {
    Public,
    Unlisted,
    Private,
    Direct,
}

} // verus!
