//! The request orchestrator's decision steps: query validation, failure
//! classification, the fallback icon choice, and the SVG-or-resize reply.
//!
//! The fetches themselves are I/O and live outside the library; each step
//! here is a pure function from the fetched values to the next decision.

use vstd::prelude::*;
use crate::imaging::{MAX_ICON_SIZE, resize_image, resized_png};
use crate::resolver::{fetch_favicon_url, resolve_spec};
use crate::strutil::{concat_str, find_scheme_marker, has_scheme_marker, str_eq};
use crate::urls::{join_url, parse_url, url_joined, url_normalized};

verus! {

/// One inbound request: the target site and the optional square size.
pub struct FaviconQuery {
    pub url: String,
    pub size: Option<u32>,
}

/// How a failed request is classified.
#[derive(PartialEq, Eq, Structural, Clone, Copy, Debug)]
pub enum FaviconError {
    /// The input was malformed, or the origin page could not be fetched.
    BadRequest,
    /// The resolved icon was unreachable.
    NotFound,
    /// A decode, resize or encode step failed.
    Internal,
}

/// The HTTP status each failure maps to.
pub open spec fn status_code_spec(e: FaviconError) -> u16 {
    match e {
        FaviconError::BadRequest => 400,
        FaviconError::NotFound => 404,
        FaviconError::Internal => 500,
    }
}

impl FaviconError {
    /// The HTTP status this failure maps to.
    pub fn status_code(&self) -> (r: u16)
        ensures
            r == status_code_spec(*self),
    {
        match self {
            FaviconError::BadRequest => 400,
            FaviconError::NotFound => 404,
            FaviconError::Internal => 500,
        }
    }
}

/// The square size used when a request names none.
pub const DEFAULT_SIZE: u32 = 32;

/// The size a request asks for: its own, or [`DEFAULT_SIZE`].
pub open spec fn effective_size_spec(s: Option<u32>) -> u32 {
    match s {
        Some(v) => v,
        None => DEFAULT_SIZE,
    }
}

/// An acceptable square size: positive, and small enough to resize.
pub open spec fn size_ok_spec(v: u32) -> bool {
    1 <= v <= MAX_ICON_SIZE
}

/// The query's target with a scheme: untouched when it holds a `://` marker,
/// and behind `https://` otherwise.
pub open spec fn normalized_origin_spec(s: Seq<char>) -> Seq<char> {
    if has_scheme_marker(s) {
        s
    } else {
        "https://"@ + s
    }
}

/// Validates a query: the canonical origin URL it denotes, and the effective
/// size. Fails with [`FaviconError::BadRequest`] exactly when the normalized
/// target is not a valid URL or the size is unacceptable.
pub fn validate_query(q: &FaviconQuery) -> (r: Result<(String, u32), FaviconError>)
    ensures
        r matches Ok(p) ==> {
            &&& url_normalized(normalized_origin_spec(q.url@)) == Some(p.0@)
            &&& p.1 == effective_size_spec(q.size)
            &&& size_ok_spec(p.1)
        },
        r matches Err(e) ==> e == FaviconError::BadRequest,
        (r is Ok) == (url_normalized(normalized_origin_spec(q.url@)) is Some && size_ok_spec(
            effective_size_spec(q.size),
        )),
{
    let size = match q.size {
        Some(v) => v,
        None => DEFAULT_SIZE,
    };
    if size < 1 || size > MAX_ICON_SIZE {
        return Err(FaviconError::BadRequest);
    }
    let normalized = if find_scheme_marker(q.url.as_str()) {
        q.url.clone()
    } else {
        concat_str("https://", q.url.as_str())
    };
    match parse_url(normalized.as_str()) {
        Some(origin) => Ok((origin, size)),
        None => Err(FaviconError::BadRequest),
    }
}

/// What fetching and decoding the origin page came to.
pub enum PageEvent {
    /// The fetch itself failed: no connection, a timeout, or a refused name.
    FetchFailed,
    /// The origin answered with a non-success status.
    BadStatus,
    /// The body could not be decoded as text.
    DecodeFailed,
    /// The decoded page text.
    Page(String),
}

/// How each page outcome is classified: a fetched page passes through, a
/// failed or refused fetch is the caller's fault, an undecodable body ours.
pub open spec fn page_outcome_spec(e: PageEvent) -> Result<Seq<char>, FaviconError> {
    match e {
        PageEvent::Page(h) => Ok(h@),
        PageEvent::FetchFailed => Err(FaviconError::BadRequest),
        PageEvent::BadStatus => Err(FaviconError::BadRequest),
        PageEvent::DecodeFailed => Err(FaviconError::Internal),
    }
}

/// Classifies the outcome of fetching the origin page. A failed fetch is
/// answered with a Bad-Request-class failure, never a crash.
pub fn classify_page_event(e: PageEvent) -> (r: Result<String, FaviconError>)
    ensures
        r matches Ok(h) ==> page_outcome_spec(e) == Ok::<Seq<char>, FaviconError>(h@),
        r matches Err(err) ==> page_outcome_spec(e) == Err::<Seq<char>, FaviconError>(err),
{
    match e {
        PageEvent::Page(h) => Ok(h),
        PageEvent::FetchFailed => Err(FaviconError::BadRequest),
        PageEvent::BadStatus => Err(FaviconError::BadRequest),
        PageEvent::DecodeFailed => Err(FaviconError::Internal),
    }
}

/// The icon URL to fetch for a page: the resolver's choice, or the well-known
/// `/favicon.ico` under the origin when it finds none. Nothing only when the
/// resolver found nothing and even that fallback does not join.
pub fn resolve_icon_url(html: &str, origin: &str) -> (r: Option<String>)
    ensures
        resolve_spec(html@, origin@) matches Some(u) ==> r matches Some(v) && v@ == u,
        resolve_spec(html@, origin@) is None ==> {
            &&& (r is Some) == (url_joined(origin@, "/favicon.ico"@) is Some)
            &&& (r matches Some(v) ==> url_joined(origin@, "/favicon.ico"@) == Some(v@))
        },
{
    match fetch_favicon_url(html, origin) {
        Some(u) => Some(u),
        None => join_url(origin, "/favicon.ico"),
    }
}

/// A finished reply: SVG bytes passed through, or resized PNG bytes.
pub enum IconReply {
    Svg(Vec<u8>),
    Png(Vec<u8>),
}

/// The content type of a reply.
pub open spec fn reply_content_type_spec(r: IconReply) -> Seq<char> {
    match r {
        IconReply::Svg(_) => "image/svg+xml"@,
        IconReply::Png(_) => "image/png"@,
    }
}

/// The bytes of a reply.
pub open spec fn reply_bytes_spec(r: IconReply) -> Seq<u8> {
    match r {
        IconReply::Svg(b) => b@,
        IconReply::Png(b) => b@,
    }
}

impl IconReply {
    /// The content type to answer with.
    pub fn content_type(&self) -> (r: &'static str)
        ensures
            r@ == reply_content_type_spec(*self),
    {
        match self {
            IconReply::Svg(_) => "image/svg+xml",
            IconReply::Png(_) => "image/png",
        }
    }

    /// The body to answer with.
    pub fn into_bytes(self) -> (r: Vec<u8>)
        ensures
            r@ == reply_bytes_spec(self),
    {
        match self {
            IconReply::Svg(b) => b,
            IconReply::Png(b) => b,
        }
    }
}

/// Decides the reply for fetched icon bytes: a body declared exactly as SVG
/// passes through unmodified, anything else is resized to a `size`-square
/// PNG, and bytes that do not decode or re-encode are an internal failure.
pub fn build_reply(content_type: &str, data: Vec<u8>, size: u32) -> (r: Result<
    IconReply,
    FaviconError,
>)
    requires
        1 <= size <= MAX_ICON_SIZE,
    ensures
        content_type@ == "image/svg+xml"@ ==> (r matches Ok(rep) && rep matches IconReply::Svg(b)
            && b@ == data@),
        content_type@ != "image/svg+xml"@ ==> match resized_png(data@, size) {
            Some(p) => r matches Ok(rep) && rep matches IconReply::Png(b) && b@ == p,
            None => r matches Err(e) && e == FaviconError::Internal,
        },
{
    if str_eq(content_type, "image/svg+xml") {
        return Ok(IconReply::Svg(data));
    }
    match resize_image(data.as_slice(), size) {
        Some(p) => Ok(IconReply::Png(p)),
        None => Err(FaviconError::Internal),
    }
}


} // verus!
