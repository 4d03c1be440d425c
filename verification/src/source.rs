//! What a user hands to the play command: is it an address, and how is it
//! to be streamed.

use crate::queue::{Track, TrackView};
use crate::text::text_view;
use vstd::prelude::*;
use vstd::string::{StrSliceExecFns, StringExecFns};

verus! {

/// The site whose videos are streamed through the extractor.
pub const VIDEO_SITE: &'static str = "https://www.youtube.com";

/// The pattern that finds the identifier of a video in an address.
pub const VIDEO_ID_PATTERN: &'static str = "v=([a-zA-Z0-9_-]+)";

/// What the canonical address of a video starts with; the identifier follows.
pub const WATCH_PREFIX: &'static str = "https://www.youtube.com/watch?v=";

/// Whether the `url` crate accepts `text` as an absolute address.
pub uninterp spec fn url_parses(text: Seq<char>) -> bool;

/// The leftmost match that the `regex` crate finds for `pattern` in `text`,
/// as far as the first group goes: nothing where the pattern does not
/// compile or finds no match; else what the group holds, which is nothing
/// where the group took no part in the match.
pub uninterp spec fn regex_first_capture(pattern: Seq<char>, text: Seq<char>) -> Option<
    Option<Seq<char>>,
>;

/// `part` stands somewhere in `text`.
pub open spec fn has_part(text: Seq<char>, part: Seq<char>) -> bool {
    exists|i: int|
        0 <= i && i + part.len() <= text.len() && #[trigger] text.subrange(i, i + part.len()) == part
}

/// A character that an identifier of a video may hold.
pub open spec fn is_id_char(c: char) -> bool {
    ('a' <= c && c <= 'z') || ('A' <= c && c <= 'Z') || ('0' <= c && c <= '9') || c == '_' || c
        == '-'
}

/// `text` has the form of an identifier of a video: eleven characters, each
/// a letter, a digit, `_` or `-`.
pub open spec fn is_video_id(text: Seq<char>) -> bool {
    text.len() == 11 && forall|i: int| 0 <= i < text.len() ==> is_id_char(#[trigger] text[i])
}

/// `text` without the angle brackets around it, if it has them.
pub open spec fn unbracketed(text: Seq<char>) -> Seq<char> {
    if text.len() >= 2 && text.first() == '<' && text.last() == '>' {
        text.subrange(1, text.len() - 1)
    } else {
        text
    }
}

/// Calls `Url::parse` and says whether it succeeded.
#[verifier::external_body]
fn parses_as_url(text: &str) -> (ok: bool)
    ensures
        ok == url_parses(text@),
{
    url::Url::parse(text).is_ok()
}

/// Compiles `pattern` with `Regex::new`, calls `Regex::captures` on `text`
/// and hands out the text of group 1 of the match, if there is a match.
#[verifier::external_body]
fn first_capture(pattern: &str, text: &str) -> (capture: Option<Option<String>>)
    ensures
        capture_view(capture) == regex_first_capture(pattern@, text@),
{
    let compiled = regex::Regex::new(pattern).ok()?;
    let captures = compiled.captures(text)?;
    Some(captures.get(1).map(|found| found.as_str().to_string()))
}

/// Calls `Id::from_str` of `rustube` and says whether it succeeded. Claimed:
/// it accepts exactly the texts of eleven characters, each a letter of
/// ASCII, a digit, `_` or `-`.
#[verifier::external_body]
fn has_video_id_form(text: &str) -> (ok: bool)
    ensures
        ok == is_video_id(text@),
{
    rustube::Id::from_str(text).is_ok()
}

/// What a match captured, as the contracts see it.
pub open spec fn capture_view(capture: Option<Option<String>>) -> Option<Option<Seq<char>>> {
    match capture {
        Some(group) => Some(text_view(group)),
        None => None,
    }
}

/// Whether `part` stands in `text` at position `at`.
fn stands_at(text: &str, part: &str, at: usize) -> (yes: bool)
    requires
        at + part@.len() <= text@.len() <= usize::MAX,
    ensures
        yes == (text@.subrange(at as int, at + part@.len()) == part@),
{
    let m = part.unicode_len();
    let ghost window = text@.subrange(at as int, at + part@.len());
    for j in 0..m
        invariant
            m == part@.len(),
            at + m <= text@.len() <= usize::MAX,
            window == text@.subrange(at as int, at + part@.len()),
            forall|k: int| 0 <= k < j ==> window[k] == part@[k],
    {
        if text.get_char(at + j) != part.get_char(j) {
            assert(window[j as int] != part@[j as int]);
            return false;
        }
    }
    assert(window =~= part@);
    true
}

/// Whether `part` stands somewhere in `text`.
fn contains_text(text: &str, part: &str) -> (found: bool)
    ensures
        found == has_part(text@, part@),
{
    let n = text.unicode_len();
    let m = part.unicode_len();
    if m > n {
        return false;
    }
    let last = n - m;
    let mut at: usize = 0;
    loop
        invariant
            n == text@.len(),
            m == part@.len(),
            last == n - m,
            at <= last,
            forall|i: int| 0 <= i < at ==> #[trigger] text@.subrange(i, i + part@.len()) != part@,
        decreases last - at,
    {
        if stands_at(text, part, at) {
            return true;
        }
        if at == last {
            return false;
        }
        at = at + 1;
    }
}

/// Takes the angle brackets off `source_ref`, if it has them, and tests
/// that the rest is a well-formed address. Returns that address, or nothing
/// if it is not well formed.
pub fn validate_url(source_ref: &str) -> (address: Option<String>)
    ensures
        url_parses(unbracketed(source_ref@)) ==> address is Some && address.unwrap()@ == unbracketed(
            source_ref@,
        ),
        !url_parses(unbracketed(source_ref@)) ==> address is None,
{
    let n = source_ref.unicode_len();
    let inner = if n >= 2 && source_ref.get_char(0) == '<' && source_ref.get_char(n - 1) == '>' {
        source_ref.substring_char(1, n - 1)
    } else {
        source_ref
    };
    if parses_as_url(inner) {
        Some(String::from_str(inner))
    } else {
        None
    }
}

/// How a source is to be streamed.
#[derive(Debug)]
pub enum SourcePlan {
    /// A video of the site: its details are fetched by `id`, and it is
    /// streamed through the extractor from its canonical address `url`.
    Video { id: String, url: String },
    /// Anything else: the address is streamed as it is.
    Direct { url: String },
}

/// A plan as the contracts see it.
pub enum PlanView {
    Video { id: Seq<char>, url: Seq<char> },
    Direct { url: Seq<char> },
}

impl View for SourcePlan {
    type V = PlanView;

    open spec fn view(&self) -> PlanView {
        match self {
            SourcePlan::Video { id, url } => PlanView::Video { id: id@, url: url@ },
            SourcePlan::Direct { url } => PlanView::Direct { url: url@ },
        }
    }
}

/// Why no plan could be made for a source.
#[derive(Debug, Clone, Copy, PartialEq, Eq, Structural)]
pub enum SourceError {
    /// Not a well-formed address, not an address of the site, or one in
    /// which the pattern finds nothing.
    InvalidUrl,
    /// The pattern found its place in the address, but no identifier there.
    MissingVideoId,
}

/// The plan for `address`, given what the pattern captured in it. The
/// address must be one of the site and the pattern must match in it; a match
/// without its group is an address without identifier. If what was captured
/// has the form of an identifier of a video, the plan is that video; if not,
/// the address is streamed as it is.
pub open spec fn plan_of(address: Seq<char>, capture: Option<Option<Seq<char>>>) -> Result<
    PlanView,
    SourceError,
> {
    if !has_part(address, VIDEO_SITE@) {
        Err(SourceError::InvalidUrl)
    } else {
        match capture {
            None => Err(SourceError::InvalidUrl),
            Some(None) => Err(SourceError::MissingVideoId),
            Some(Some(id)) => if is_video_id(id) {
                Ok(PlanView::Video { id, url: WATCH_PREFIX@ + id })
            } else {
                Ok(PlanView::Direct { url: address })
            },
        }
    }
}

/// The view of a plan or of the error in its place.
pub open spec fn plan_view(plan: Result<SourcePlan, SourceError>) -> Result<PlanView, SourceError> {
    match plan {
        Ok(known) => Ok(known@),
        Err(error) => Err(error),
    }
}

/// Makes the plan for `address`, given what the pattern captured in it.
pub fn plan_for(address: &str, capture: Option<Option<String>>) -> (plan: Result<
    SourcePlan,
    SourceError,
>)
    ensures
        plan_view(plan) == plan_of(address@, capture_view(capture)),
{
    if !contains_text(address, VIDEO_SITE) {
        return Err(SourceError::InvalidUrl);
    }
    match capture {
        None => Err(SourceError::InvalidUrl),
        Some(None) => Err(SourceError::MissingVideoId),
        Some(Some(id)) => {
            if has_video_id_form(id.as_str()) {
                let url = String::from_str(WATCH_PREFIX).concat(id.as_str());
                Ok(SourcePlan::Video { id, url })
            } else {
                Ok(SourcePlan::Direct { url: String::from_str(address) })
            }
        },
    }
}

/// Makes the plan for what the user handed in: validates it as an address,
/// looks for the identifier of a video in it, and decides how to stream it.
pub fn handle_url(source_ref: &str) -> (plan: Result<SourcePlan, SourceError>)
    ensures
        !url_parses(unbracketed(source_ref@)) ==> plan_view(plan) == Err::<PlanView, SourceError>(
            SourceError::InvalidUrl,
        ),
        url_parses(unbracketed(source_ref@)) ==> plan_view(plan) == plan_of(
            unbracketed(source_ref@),
            regex_first_capture(VIDEO_ID_PATTERN@, unbracketed(source_ref@)),
        ),
{
    match validate_url(source_ref) {
        None => Err(SourceError::InvalidUrl),
        Some(address) => {
            let capture = first_capture(VIDEO_ID_PATTERN, address.as_str());
            plan_for(address.as_str(), capture)
        },
    }
}

/// What the site tells about a video.
#[derive(Debug)]
pub struct VideoDetails {
    pub video_id: String,
    pub title: String,
    pub author: String,
    /// The addresses of its pictures, from the smallest to the largest.
    pub thumbnails: Vec<String>,
}

/// The place, among the pictures of a video, of the one that is shown.
pub const SHOWN_THUMBNAIL: usize = 3;

/// What the address of a channel of the site starts with; the identifier of
/// the channel follows.
pub const CHANNEL_PREFIX: &'static str = "https://www.youtube.com/channel/";

/// The track of a video as the contracts see it: it is streamed from, and
/// shown under, its canonical address, with the picture at the place of
/// `SHOWN_THUMBNAIL`.
pub open spec fn video_track(details: VideoDetails) -> TrackView
    recommends
        details.thumbnails@.len() > SHOWN_THUMBNAIL,
{
    TrackView {
        locator: WATCH_PREFIX@ + details.video_id@,
        title: details.title@,
        author: details.author@,
        thumbnail: Some(details.thumbnails@[SHOWN_THUMBNAIL as int]@),
        url: WATCH_PREFIX@ + details.video_id@,
    }
}

/// The track for a video with these details. The video must have the picture
/// that is shown.
pub fn track_of_video(details: &VideoDetails) -> (track: Track)
    requires
        details.thumbnails@.len() > SHOWN_THUMBNAIL,
    ensures
        track@ == video_track(*details),
{
    Track {
        locator: String::from_str(WATCH_PREFIX).concat(details.video_id.as_str()),
        title: details.title.clone(),
        author: details.author.clone(),
        thumbnail: Some(details.thumbnails[SHOWN_THUMBNAIL].clone()),
        url: String::from_str(WATCH_PREFIX).concat(details.video_id.as_str()),
    }
}

/// The track of a source that is streamed as it is: the address is all that
/// is known of it, so it stands for the title too, and there is neither an
/// author nor a picture.
pub open spec fn address_track(address: Seq<char>) -> TrackView {
    TrackView {
        locator: address,
        title: address,
        author: Seq::empty(),
        thumbnail: None,
        url: address,
    }
}

/// The track for a source that is streamed from `address` as it is.
pub fn track_of_address(address: &str) -> (track: Track)
    ensures
        track@ == address_track(address@),
{
    Track {
        locator: String::from_str(address),
        title: String::from_str(address),
        author: String::new(),
        thumbnail: None,
        url: String::from_str(address),
    }
}

/// The address of the channel with this identifier.
pub fn channel_address(channel_id: &str) -> (address: String)
    ensures
        address@ == CHANNEL_PREFIX@ + channel_id@,
{
    String::from_str(CHANNEL_PREFIX).concat(channel_id)
}

} // verus!
