use vstd::prelude::*;
use vstd::string::StringSliceAdditionalSpecFns;
use crate::gradient::{sha256, sha256_of};
use crate::text::{str_chars, join};
use crate::pixel::Rgba;

verus! {

/// Width of every Open-Graph image.
pub const OG_WIDTH: u32 = 1200;

/// Height of every Open-Graph image.
pub const OG_HEIGHT: u32 = 630;

/// The preloaded background used for a content image.
#[derive(Clone, Copy, Debug, PartialEq, Eq, Structural)]
pub enum Background {
    Notes,
    Blog,
    Poems,
    Journal,
    Others,
}

/// Scale tier of a content image's title, chosen by the title's length in characters.
#[derive(Clone, Copy, Debug, PartialEq, Eq, Structural)]
pub enum TitleTier {
    Large,
    Medium,
    Small,
}

pub open spec fn spec_title_tier(char_len: nat) -> TitleTier {
    if char_len <= 20 {
        TitleTier::Large
    } else if char_len <= 30 {
        TitleTier::Medium
    } else {
        TitleTier::Small
    }
}

pub open spec fn spec_tier_px(t: TitleTier) -> u32 {
    match t {
        TitleTier::Large => 96,
        TitleTier::Medium => 86,
        TitleTier::Small => 72,
    }
}

/// Picks the title tier of a content image from the title's length in characters.
pub fn title_tier(title: &str) -> (t: TitleTier)
    ensures
        t == spec_title_tier(title@.len()),
{
    let n = str_chars(title).len();
    if n <= 20 {
        TitleTier::Large
    } else if n <= 30 {
        TitleTier::Medium
    } else {
        TitleTier::Small
    }
}

impl TitleTier {
    /// The pixel scale at which the title is drawn.
    pub fn px(&self) -> (r: u32)
        ensures
            r == spec_tier_px(*self),
    {
        match self {
            TitleTier::Large => 96,
            TitleTier::Medium => 86,
            TitleTier::Small => 72,
        }
    }
}

pub open spec fn has_prefix(s: Seq<char>, p: Seq<char>) -> bool {
    p.len() <= s.len() && s.take(p.len() as int) == p
}

pub(crate) fn starts_with(s: &Vec<char>, p: &[char]) -> (r: bool)
    ensures
        r == has_prefix(s@, p@),
{
    if p.len() > s.len() {
        return false;
    }
    let mut i: usize = 0;
    while i < p.len()
        invariant
            p@.len() <= s@.len(),
            i <= p@.len(),
            forall|j: int| 0 <= j < i ==> s@[j] == p@[j],
        decreases p.len() - i,
    {
        if s[i] != p[i] {
            assert(s@.take(p@.len() as int)[i as int] != p@[i as int]);
            return false;
        }
        i = i + 1;
    }
    assert(s@.take(p@.len() as int) =~= p@);
    true
}

pub open spec fn spec_background(path: Seq<char>) -> Background {
    if has_prefix(path, seq!['n', 'o', 't', 'e', 's']) {
        Background::Notes
    } else if has_prefix(path, seq!['b', 'l', 'o', 'g']) {
        Background::Blog
    } else if has_prefix(path, seq!['j', 'o', 'u', 'r', 'n', 'a', 'l']) {
        Background::Journal
    } else if has_prefix(path, seq!['p', 'o', 'e', 'm', 's']) {
        Background::Poems
    } else {
        Background::Notes
    }
}

/// Chooses the background of a content image from its category path, by the
/// first matching prefix among `notes`, `blog`, `journal` and `poems`;
/// any other path gets the notes background.
pub fn select_background(path: &Vec<char>) -> (b: Background)
    ensures
        b == spec_background(path@),
{
    let notes = ['n', 'o', 't', 'e', 's'];
    let blog = ['b', 'l', 'o', 'g'];
    let journal = ['j', 'o', 'u', 'r', 'n', 'a', 'l'];
    let poems = ['p', 'o', 'e', 'm', 's'];
    assert(notes@ == seq!['n', 'o', 't', 'e', 's']);
    assert(blog@ == seq!['b', 'l', 'o', 'g']);
    assert(journal@ == seq!['j', 'o', 'u', 'r', 'n', 'a', 'l']);
    assert(poems@ == seq!['p', 'o', 'e', 'm', 's']);
    if starts_with(path, &notes) {
        Background::Notes
    } else if starts_with(path, &blog) {
        Background::Blog
    } else if starts_with(path, &journal) {
        Background::Journal
    } else if starts_with(path, &poems) {
        Background::Poems
    } else {
        Background::Notes
    }
}

/// The bytes a cache key is computed from: each string's bytes followed by
/// a 0xff marker, so that no two pairs of strings give the same bytes.
pub open spec fn key_material(a: Seq<u8>, b: Seq<u8>) -> Seq<u8> {
    a + seq![0xffu8] + b + seq![0xffu8]
}

/// The first eight bytes of a digest read as a little-endian integer.
pub open spec fn le_u64(h: Seq<u8>) -> int {
    h[0] + 256 * h[1] + 65536 * h[2] + 16777216 * h[3] + 4294967296 * h[4] + 1099511627776 * h[5]
        + 281474976710656 * h[6] + 72057594037927936 * h[7]
}

/// Cache key of an image determined by two strings (title and category
/// path, or title and subtitle).
pub open spec fn spec_cache_key(a: Seq<u8>, b: Seq<u8>) -> int {
    le_u64(sha256_of(key_material(a, b)))
}

fn append_bytes(v: &mut Vec<u8>, b: &[u8])
    ensures
        final(v)@ == old(v)@ + b@,
{
    let mut i: usize = 0;
    while i < b.len()
        invariant
            i <= b@.len(),
            v@ == old(v)@ + b@.take(i as int),
        decreases b.len() - i,
    {
        v.push(b[i]);
        i = i + 1;
        assert(b@.take(i as int) =~= b@.take(i - 1).push(b@[i - 1]));
    }
    assert(b@.take(b@.len() as int) =~= b@);
}

/// A 64-bit key for the image that `title` and `dir_path` determine: the
/// first eight bytes of the SHA-256 digest of their key material.
pub fn generate_cache_key(title: &str, dir_path: &str) -> (k: u64)
    ensures
        k == spec_cache_key(title.spec_bytes(), dir_path.spec_bytes()),
{
    let mut m: Vec<u8> = Vec::new();
    append_bytes(&mut m, title.as_bytes());
    m.push(0xff);
    append_bytes(&mut m, dir_path.as_bytes());
    m.push(0xff);
    assert(m@ =~= key_material(title.spec_bytes(), dir_path.spec_bytes()));
    let h = sha256(m.as_slice());
    key_from_digest(&h)
}

/// Reads a cache key out of a digest of at least eight bytes: its first
/// eight bytes, least significant first.
pub fn key_from_digest(h: &Vec<u8>) -> (k: u64)
    requires
        h@.len() >= 8,
    ensures
        k == le_u64(h@),
{
    (h[0] as u64) + 256 * (h[1] as u64) + 65536 * (h[2] as u64) + 16777216 * (h[3] as u64)
        + 4294967296 * (h[4] as u64) + 1099511627776 * (h[5] as u64) + 281474976710656 * (h[6] as u64)
        + 72057594037927936 * (h[7] as u64)
}

/// Where the text and the avatar of an Open-Graph image go.
#[derive(Clone, Copy, Debug, PartialEq, Eq, Structural)]
pub struct OgLayout {
    pub key: u64,
    pub background: Background,
    pub title_x: i64,
    pub title_y: i64,
    pub title_px: u32,
    pub caption_x: i64,
    pub caption_y: i64,
    pub caption_px: u32,
    pub avatar_x: i64,
    pub avatar_y: i64,
    pub avatar_size: usize,
}

/// Side of the avatar on a content image.
pub const CONTENT_AVATAR: usize = 50;

/// Side of the avatar on a page image.
pub const WEB_AVATAR: usize = 150;

/// Layout of the Open-Graph image of a content page: the category's
/// background, the title at its length's tier, the path below it and a
/// small avatar in the lower right corner.
pub fn content_og_layout(title: &str, dir_path: &str) -> (l: OgLayout)
    ensures
        l.key == spec_cache_key(title.spec_bytes(), dir_path.spec_bytes()),
        l.background == spec_background(dir_path@),
        l.title_px == spec_tier_px(spec_title_tier(title@.len())),
        l.title_x == 100 && l.title_y == 200,
        l.caption_x == 100 && l.caption_y == 500 && l.caption_px == 36,
        l.avatar_size == CONTENT_AVATAR,
        l.avatar_x == OG_WIDTH - CONTENT_AVATAR - 30,
        l.avatar_y == OG_HEIGHT - CONTENT_AVATAR - 30,
{
    let key = generate_cache_key(title, dir_path);
    let path = str_chars(dir_path);
    let tier = title_tier(title);
    OgLayout {
        key,
        background: select_background(&path),
        title_x: 100,
        title_y: 200,
        title_px: tier.px(),
        caption_x: 100,
        caption_y: 500,
        caption_px: 36,
        avatar_x: 1120,
        avatar_y: 550,
        avatar_size: CONTENT_AVATAR,
    }
}

/// Layout of the Open-Graph image of any other page: the generic
/// background, a large title, the subtitle below it and a large avatar in
/// the upper right corner.
pub fn web_og_layout(title: &str, subtitle: &str) -> (l: OgLayout)
    ensures
        l.key == spec_cache_key(title.spec_bytes(), subtitle.spec_bytes()),
        l.background == Background::Others,
        l.title_x == 100 && l.title_y == 200 && l.title_px == 120,
        l.caption_x == 100 && l.caption_y == 320 && l.caption_px == 48,
        l.avatar_size == WEB_AVATAR,
        l.avatar_x == OG_WIDTH - WEB_AVATAR - 80,
        l.avatar_y == 80,
{
    OgLayout {
        key: generate_cache_key(title, subtitle),
        background: Background::Others,
        title_x: 100,
        title_y: 200,
        title_px: 120,
        caption_x: 100,
        caption_y: 320,
        caption_px: 48,
        avatar_x: 970,
        avatar_y: 80,
        avatar_size: WEB_AVATAR,
    }
}

/// The caption of a content image: its category path below the site root.
pub fn path_caption(dir_path: &str) -> (r: String)
    ensures
        r@ == seq!['/'] + dir_path@,
{
    let slash = ['/'];
    assert(slash@ == seq!['/']);
    join(&slash, dir_path)
}

/// Colour of an Open-Graph image's title.
pub fn title_color() -> (c: Rgba)
    ensures
        c == (Rgba { r: 255, g: 255, b: 255, a: 255 }),
{
    Rgba { r: 255, g: 255, b: 255, a: 255 }
}

/// Colour of an Open-Graph image's caption.
pub fn caption_color() -> (c: Rgba)
    ensures
        c == (Rgba { r: 240, g: 240, b: 240, a: 255 }),
{
    Rgba { r: 240, g: 240, b: 240, a: 255 }
}

} // verus!
