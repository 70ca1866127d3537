use vstd::prelude::*;
use crate::text::join;
use crate::tweet::{TweetData, RawTweet, parse_tweet_data, record_complete, parsed_from};

verus! {

/// Why a tweet card could not be made.
#[derive(Clone, Copy, Debug, PartialEq, Eq, Structural)]
pub enum RenderError {
    /// A remote endpoint could not be reached, or answered with a failure.
    Fetch,
    /// The tweet record lacks a required field or is malformed.
    Parse,
    /// Fetched bytes are not an image.
    Decode,
    /// The finished canvas could not be encoded.
    Encode,
}

/// What a fetch is for.
#[derive(Clone, Copy, Debug, PartialEq, Eq, Structural)]
pub enum Purpose {
    Tweet,
    Profile,
    Media,
}

/// What the caller is to do next.
#[derive(Clone, Debug)]
pub enum Action {
    /// Fetch `url`, giving up after `timeout_secs` seconds.
    Fetch { url: String, timeout_secs: u64, purpose: Purpose },
    /// Everything is at hand: draw the card.
    Render,
    /// Give up with this error.
    Fail(RenderError),
}

/// What came of the last action.
#[derive(Clone, Debug)]
pub enum Event {
    /// The tweet record, read out of the fetched body; `None` where the body
    /// is not a record.
    Record(Option<RawTweet>),
    /// An image was fetched and decoded.
    Image,
    /// The fetch failed or timed out.
    Unreachable,
    /// The fetched bytes are not an image.
    Undecodable,
}

/// Where the fetching of a tweet card stands.
#[derive(Clone, Debug)]
pub enum Stage {
    AwaitTweet,
    AwaitProfile(TweetData),
    AwaitFallback(TweetData),
    AwaitMedia(TweetData),
    Ready(TweetData, bool),
    Failed(RenderError),
}

pub open spec fn tweet_api() -> Seq<char> {
    seq!['h', 't', 't', 'p', 's', ':', '/', '/', 'r', 'e', 'a', 'c', 't', '-', 't', 'w', 'e', 'e', 't', '.', 'v', 'e',
        'r', 'c', 'e', 'l', '.', 'a', 'p', 'p', '/', 'a', 'p', 'i', '/', 't', 'w', 'e', 'e', 't', '/']
}

pub open spec fn avatar_api() -> Seq<char> {
    seq!['h', 't', 't', 'p', 's', ':', '/', '/', 'a', 'v', 'a', 't', 'a', 'r', '.', 'v', 'e', 'r', 'c', 'e', 'l', '.',
        's', 'h', '/']
}

/// Whether `a` fetches `url` within `secs` seconds, for `p`.
pub open spec fn fetches(a: Action, url: Seq<char>, secs: u64, p: Purpose) -> bool {
    match a {
        Action::Fetch { url: u, timeout_secs, purpose } => u@ == url && timeout_secs == secs && purpose == p,
        _ => false,
    }
}

/// What `a` fetches for, if it is a fetch.
pub open spec fn fetch_purpose(a: Action) -> Option<Purpose> {
    match a {
        Action::Fetch { purpose, .. } => Some(purpose),
        _ => None,
    }
}

/// Seconds a profile picture may take.
pub const SHORT_TIMEOUT: u64 = 5;

/// Seconds a tweet record or a media image may take.
pub const LONG_TIMEOUT: u64 = 10;

/// The address of tweet `id`'s record.
pub fn tweet_url(id: &str) -> (r: String)
    ensures
        r@ == tweet_api() + id@,
{
    let p = ['h', 't', 't', 'p', 's', ':', '/', '/', 'r', 'e', 'a', 'c', 't', '-', 't', 'w', 'e', 'e', 't', '.', 'v', 'e',
        'r', 'c', 'e', 'l', '.', 'a', 'p', 'p', '/', 'a', 'p', 'i', '/', 't', 'w', 'e', 'e', 't', '/'];
    assert(p@ == tweet_api());
    join(&p, id)
}

/// The address of the generated avatar of `handle`.
pub fn fallback_avatar_url(handle: &str) -> (r: String)
    ensures
        r@ == avatar_api() + handle@,
{
    let p = ['h', 't', 't', 'p', 's', ':', '/', '/', 'a', 'v', 'a', 't', 'a', 'r', '.', 'v', 'e', 'r', 'c', 'e', 'l', '.',
        's', 'h', '/'];
    assert(p@ == avatar_api());
    join(&p, handle)
}

/// The first step for tweet `id`: fetch its record.
pub fn start(id: &str) -> (r: (Stage, Action))
    ensures
        r.0 is AwaitTweet,
        fetches(r.1, tweet_api() + id@, LONG_TIMEOUT, Purpose::Tweet),
{
    (Stage::AwaitTweet, Action::Fetch { url: tweet_url(id), timeout_secs: LONG_TIMEOUT, purpose: Purpose::Tweet })
}

/// After the profile picture is at hand: the media image if the tweet has
/// one, else the card.
fn after_profile(t: TweetData) -> (r: (Stage, Action))
    ensures
        t.media_url is None ==> r.0 == Stage::Ready(t, false) && r.1 is Render,
        t.media_url is Some ==> r.0 == Stage::AwaitMedia(t) && fetches(r.1, t.media_url->0@, LONG_TIMEOUT, Purpose::Media),
{
    match &t.media_url {
        Some(u) => {
            let url = u.clone();
            (Stage::AwaitMedia(t), Action::Fetch { url, timeout_secs: LONG_TIMEOUT, purpose: Purpose::Media })
        },
        None => (Stage::Ready(t, false), Action::Render),
    }
}

/// The next stage and action of a tweet card, from where it stands and what
/// came of the last action. The record must parse, and a profile picture
/// must be had, from the tweet's address or else from the generated avatar;
/// the media image is optional.
pub fn next(stage: Stage, event: Event) -> (r: (Stage, Action))
    ensures
        match (stage, event) {
            (Stage::AwaitTweet, Event::Record(Some(raw))) => if record_complete(raw) {
                match r.0 {
                    Stage::AwaitProfile(d) => parsed_from(raw, d)
                        && fetches(r.1, d.profile_image_url@, SHORT_TIMEOUT, Purpose::Profile),
                    _ => false,
                }
            } else {
                r.0 == Stage::Failed(RenderError::Parse) && r.1 == Action::Fail(RenderError::Parse)
            },
            (Stage::AwaitTweet, Event::Record(None)) => r.0 == Stage::Failed(RenderError::Parse)
                && r.1 == Action::Fail(RenderError::Parse),
            (Stage::AwaitTweet, Event::Undecodable) => r.0 == Stage::Failed(RenderError::Parse)
                && r.1 == Action::Fail(RenderError::Parse),
            (Stage::AwaitTweet, _) => r.0 == Stage::Failed(RenderError::Fetch) && r.1 == Action::Fail(RenderError::Fetch),
            (Stage::AwaitProfile(t), Event::Image) => {
                &&& t.media_url is None ==> r.0 == Stage::Ready(t, false) && r.1 is Render
                &&& t.media_url is Some ==> r.0 == Stage::AwaitMedia(t) && fetches(r.1, t.media_url->0@, LONG_TIMEOUT, Purpose::Media)
            },
            (Stage::AwaitProfile(t), _) => {
                &&& r.0 == Stage::AwaitFallback(t)
                &&& fetches(r.1, avatar_api() + t.author_username@, SHORT_TIMEOUT, Purpose::Profile)
            },
            (Stage::AwaitFallback(t), Event::Image) => {
                &&& t.media_url is None ==> r.0 == Stage::Ready(t, false) && r.1 is Render
                &&& t.media_url is Some ==> r.0 == Stage::AwaitMedia(t) && fetches(r.1, t.media_url->0@, LONG_TIMEOUT, Purpose::Media)
            },
            (Stage::AwaitFallback(_), Event::Undecodable) => r.0 == Stage::Failed(RenderError::Decode)
                && r.1 == Action::Fail(RenderError::Decode),
            (Stage::AwaitFallback(_), _) => r.0 == Stage::Failed(RenderError::Fetch)
                && r.1 == Action::Fail(RenderError::Fetch),
            (Stage::AwaitMedia(t), Event::Image) => r.0 == Stage::Ready(t, true) && r.1 is Render,
            (Stage::AwaitMedia(t), _) => r.0 == Stage::Ready(t, false) && r.1 is Render,
            (Stage::Ready(t, m), _) => r.0 == Stage::Ready(t, m) && r.1 is Render,
            (Stage::Failed(e), _) => r.0 == Stage::Failed(e) && r.1 == Action::Fail(e),
        },
{
    match stage {
        Stage::AwaitTweet => match event {
            Event::Record(Some(raw)) => match parse_tweet_data(raw) {
                Some(t) => {
                    let url = t.profile_image_url.clone();
                    (Stage::AwaitProfile(t), Action::Fetch { url, timeout_secs: SHORT_TIMEOUT, purpose: Purpose::Profile })
                },
                None => (Stage::Failed(RenderError::Parse), Action::Fail(RenderError::Parse)),
            },
            Event::Record(None) | Event::Undecodable => (Stage::Failed(RenderError::Parse), Action::Fail(RenderError::Parse)),
            _ => (Stage::Failed(RenderError::Fetch), Action::Fail(RenderError::Fetch)),
        },
        Stage::AwaitProfile(t) => match event {
            Event::Image => after_profile(t),
            _ => {
                let url = fallback_avatar_url(t.author_username.as_str());
                (Stage::AwaitFallback(t), Action::Fetch { url, timeout_secs: SHORT_TIMEOUT, purpose: Purpose::Profile })
            },
        },
        Stage::AwaitFallback(t) => match event {
            Event::Image => after_profile(t),
            Event::Undecodable => (Stage::Failed(RenderError::Decode), Action::Fail(RenderError::Decode)),
            _ => (Stage::Failed(RenderError::Fetch), Action::Fail(RenderError::Fetch)),
        },
        Stage::AwaitMedia(t) => match event {
            Event::Image => (Stage::Ready(t, true), Action::Render),
            _ => (Stage::Ready(t, false), Action::Render),
        },
        Stage::Ready(t, m) => (Stage::Ready(t, m), Action::Render),
        Stage::Failed(e) => (Stage::Failed(e), Action::Fail(e)),
    }
}

} // verus!
