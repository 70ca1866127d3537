use vstd::prelude::*;
use crate::text::{spec_unescape, unescape_newlines, replace_all, replace_chars, str_chars, chars_string};

verus! {

/// `s` with its HTML character references decoded.
pub uninterp spec fn html_decoded(s: Seq<char>) -> Seq<char>;

/// Relies on `html_escape::decode_html_entities`: the text with its HTML
/// character references decoded; the result depends on the text alone.
#[verifier::external_body]
fn decode_entities(s: &str) -> (r: String)
    ensures
        r@ == html_decoded(s@),
{
    html_escape::decode_html_entities(s).into_owned()
}

/// The Unix time of an RFC 3339 timestamp, or `None` where it does not parse.
pub uninterp spec fn rfc3339_seconds(s: Seq<char>) -> Option<i64>;

/// Relies on `chrono::DateTime::parse_from_rfc3339`: the instant written in
/// `s`, as whole seconds since the Unix epoch, or `None` where `s` is not
/// RFC 3339.
#[verifier::external_body]
fn parse_timestamp(s: &str) -> (r: Option<i64>)
    ensures
        r == rfc3339_seconds(s@),
{
    chrono::DateTime::parse_from_rfc3339(s).ok().map(|d| d.timestamp())
}

/// The first photo of a tweet as the fetched record gives it.
#[derive(Clone, Debug, PartialEq, Eq)]
pub enum PhotoField {
    /// No photo list, or an empty one.
    NoPhotos,
    /// The first photo's URL.
    Url(String),
    /// The first photo has a URL field that is not text.
    NotText,
    /// The first photo has no URL field.
    Missing,
}

/// The fields of a fetched tweet record, each `None` where absent or not of
/// the expected kind.
#[derive(Clone, Debug)]
pub struct RawTweet {
    pub text: Option<String>,
    pub created_at: Option<String>,
    pub name: Option<String>,
    pub screen_name: Option<String>,
    pub profile_image_url: Option<String>,
    pub favorite_count: Option<i64>,
    pub conversation_count: Option<i64>,
    pub first_photo: PhotoField,
}

/// A tweet as a card shows it.
#[derive(Clone, Debug)]
pub struct TweetData {
    pub author_name: String,
    pub author_username: String,
    pub profile_image_url: String,
    pub tweet_text: String,
    /// Seconds since the Unix epoch.
    pub created_at: i64,
    pub favorite_count: i64,
    pub reply_count: i64,
    pub media_url: Option<String>,
}

/// The suffix that marks a small profile picture.
pub open spec fn normal_suffix() -> Seq<char> {
    seq!['_', 'n', 'o', 'r', 'm', 'a', 'l']
}

/// Whether a record holds every required field in a usable form.
pub open spec fn record_complete(raw: RawTweet) -> bool {
    &&& raw.text is Some
    &&& raw.created_at is Some
    &&& rfc3339_seconds(raw.created_at->0@) is Some
    &&& raw.name is Some
    &&& raw.screen_name is Some
    &&& raw.profile_image_url is Some
    &&& raw.favorite_count is Some
}

/// Whether `t` is the tweet of record `raw`: the text with its entities
/// decoded and its escaped line breaks made real, the larger profile
/// picture, zero replies where the count is absent, and the first photo's
/// URL where it has one.
pub open spec fn parsed_from(raw: RawTweet, t: TweetData) -> bool {
    &&& t.tweet_text@ == spec_unescape(html_decoded(raw.text->0@))
    &&& Some(t.created_at) == rfc3339_seconds(raw.created_at->0@)
    &&& t.author_name@ == raw.name->0@
    &&& t.author_username@ == raw.screen_name->0@
    &&& t.profile_image_url@ == replace_all(raw.profile_image_url->0@, normal_suffix(), seq![])
    &&& t.favorite_count == raw.favorite_count->0
    &&& t.reply_count == (match raw.conversation_count { Some(n) => n, None => 0 })
    &&& (match raw.first_photo {
        PhotoField::Url(u) => t.media_url is Some && t.media_url->0@ == u@,
        _ => t.media_url is None,
    })
}

/// Builds the tweet of a fetched record: the text with its entities decoded
/// and its escaped line breaks made real, the larger profile picture, zero
/// replies where the count is absent, and the first photo's URL, if it has
/// one (media is optional). A record without a required field gives `None`.
pub fn parse_tweet_data(raw: RawTweet) -> (r: Option<TweetData>)
    ensures
        r is Some <==> record_complete(raw),
        r is Some ==> parsed_from(raw, r->0),
{
    let text = match &raw.text {
        Some(t) => t,
        None => return None,
    };
    let created = match &raw.created_at {
        Some(c) => c,
        None => return None,
    };
    let decoded = decode_entities(text.as_str());
    let tweet_text = unescape_newlines(decoded.as_str());
    let created_at = match parse_timestamp(created.as_str()) {
        Some(t) => t,
        None => return None,
    };
    let author_name = match &raw.name {
        Some(n) => n.clone(),
        None => return None,
    };
    let author_username = match &raw.screen_name {
        Some(n) => n.clone(),
        None => return None,
    };
    let profile = match &raw.profile_image_url {
        Some(u) => u,
        None => return None,
    };
    let suffix = ['_', 'n', 'o', 'r', 'm', 'a', 'l'];
    let nothing: [char; 0] = [];
    assert(suffix@ == normal_suffix());
    assert(nothing@ == Seq::<char>::empty());
    let profile_chars = str_chars(profile.as_str());
    let larger = replace_chars(&profile_chars, &suffix, &nothing);
    let profile_image_url = chars_string(&larger);
    let favorite_count = match raw.favorite_count {
        Some(n) => n,
        None => return None,
    };
    let reply_count = match raw.conversation_count {
        Some(n) => n,
        None => 0,
    };
    let media_url = match &raw.first_photo {
        PhotoField::NoPhotos => None,
        PhotoField::Url(u) => Some(u.clone()),
        PhotoField::NotText => None,
        PhotoField::Missing => None,
    };
    Some(TweetData {
        author_name,
        author_username,
        profile_image_url,
        tweet_text,
        created_at,
        favorite_count,
        reply_count,
        media_url,
    })
}

/// How long ago a tweet was posted, in the largest unit that fits.
#[derive(Clone, Copy, Debug, PartialEq, Eq, Structural)]
pub enum Age {
    Years(i64),
    Months(i64),
    Days(i64),
    Hours(i64),
    Minutes(i64),
    Now,
}

pub open spec fn spec_age(diff: int) -> Age {
    if diff <= 0 {
        Age::Now
    } else if diff / 86400 > 365 {
        Age::Years((diff / 86400 / 365) as i64)
    } else if diff / 86400 > 30 {
        Age::Months((diff / 86400 / 30) as i64)
    } else if diff / 86400 > 0 {
        Age::Days((diff / 86400) as i64)
    } else if diff / 3600 > 0 {
        Age::Hours((diff / 3600) as i64)
    } else if diff / 60 > 0 {
        Age::Minutes((diff / 60) as i64)
    } else {
        Age::Now
    }
}

/// Largest magnitude of a timestamp, in seconds.
pub const MAX_TIMESTAMP: i64 = 4611686018427387903;

/// The age of a tweet posted at `then`, seen at `now` (both in Unix seconds):
/// whole years of 365 days past a year, else whole months of 30 days past a
/// month, else whole days, hours or minutes, else `Now`. A post from the
/// future is `Now`.
pub fn relative_age(now: i64, then: i64) -> (a: Age)
    requires
        -MAX_TIMESTAMP <= now <= MAX_TIMESTAMP,
        -MAX_TIMESTAMP <= then <= MAX_TIMESTAMP,
    ensures
        a == spec_age(now - then),
{
    let diff = now - then;
    if diff <= 0 {
        return Age::Now;
    }
    let days = diff / 86400;
    if days > 365 {
        Age::Years(days / 365)
    } else if days > 30 {
        Age::Months(days / 30)
    } else if days > 0 {
        Age::Days(days)
    } else if diff / 3600 > 0 {
        Age::Hours(diff / 3600)
    } else if diff / 60 > 0 {
        Age::Minutes(diff / 60)
    } else {
        Age::Now
    }
}

} // verus!
