//! The conditional fetch of one feed: what is asked of the server, and what
//! its answer means for the stored feed.

use vstd::prelude::*;
use vstd::string::*;
use vstd::utf8::encode_utf8;

use crate::data::merge::{EntryView, ParsedEntry, ParsedFeed, ParsedFeedView};
use crate::data::{slice_view, text_view};
use crate::text::{contains_bytes, occurs_in};

pub mod refresh;

verus! {

/// The status with which a server says that nothing has changed.
pub const NOT_MODIFIED: u16 = 304;

/// A request for one feed, with the validators cached for it.
#[derive(Debug, PartialEq, Eq)]
pub struct Request {
    pub url: String,
    /// Sent as `If-None-Match`.
    pub if_none_match: Option<String>,
    /// Sent as `If-Modified-Since`.
    pub if_modified_since: Option<String>,
}

/// What a [`Request`] holds, as plain values.
pub struct RequestView {
    pub url: Seq<char>,
    pub if_none_match: Option<Seq<char>>,
    pub if_modified_since: Option<Seq<char>>,
}

impl View for Request {
    type V = RequestView;

    open spec fn view(&self) -> RequestView {
        RequestView {
            url: self.url@,
            if_none_match: text_view(self.if_none_match),
            if_modified_since: text_view(self.if_modified_since),
        }
    }
}

/// What came back for a request.
#[derive(Debug, PartialEq, Eq)]
pub struct Response {
    pub status: u16,
    /// The `ETag` header, if the response has one.
    pub etag: Option<String>,
    /// The `Last-Modified` header, if the response has one.
    pub last_modified: Option<String>,
    pub body: Vec<u8>,
}

/// The result of a fetch that did not fail.
#[derive(Debug, PartialEq, Eq)]
pub struct Fetched {
    pub etag: Option<String>,
    pub last_modified: Option<String>,
    /// The parsed document; none where the server said that nothing has
    /// changed.
    pub payload: Option<ParsedFeed>,
}

/// What a [`Fetched`] holds, as plain values.
pub struct FetchedView {
    pub etag: Option<Seq<char>>,
    pub last_modified: Option<Seq<char>>,
    pub payload: Option<ParsedFeedView>,
}

impl View for Fetched {
    type V = FetchedView;

    open spec fn view(&self) -> FetchedView {
        FetchedView {
            etag: text_view(self.etag),
            last_modified: text_view(self.last_modified),
            payload: match self.payload {
                Some(parsed) => Some(parsed@),
                None => None,
            },
        }
    }
}

/// Why a fetch failed.
#[derive(Debug, Clone, Copy, PartialEq, Eq)]
pub enum FetchError {
    /// The request could not be sent, or no response came back.
    Network,
    /// The server answered with a status that is neither a success nor
    /// "not modified".
    HttpStatus(u16),
    /// The body is no feed document.
    Parse,
}

/// The three ways in which a status is read.
#[derive(Debug, Clone, Copy, PartialEq, Eq)]
pub enum StatusClass {
    NotModified,
    Success,
    Failure,
}

/// How a status is read: 304 says that nothing has changed, 200 to 299
/// bring a document, anything else is a failure.
pub open spec fn status_class(status: u16) -> StatusClass {
    if status == NOT_MODIFIED {
        StatusClass::NotModified
    } else if 200 <= status < 300 {
        StatusClass::Success
    } else {
        StatusClass::Failure
    }
}

/// A validator after a "not modified": the one the response brings, else
/// the cached one.
pub open spec fn carried(sent: Option<Seq<char>>, cached: Option<Seq<char>>) -> Option<Seq<char>> {
    if sent is Some {
        sent
    } else {
        cached
    }
}

/// The error of `feed_rs::parser::parse`, carried through unread.
#[verifier::external_type_specification]
#[verifier::external_body]
pub struct ExParseFeedError(feed_rs::parser::ParseFeedError);

/// The name under which a document declares the podcast elements.
pub open spec fn podcast_namespace() -> Seq<u8> {
    encode_utf8("http://www.itunes.com/dtds/podcast-1.0.dtd"@)
}

/// The name under which a document declares the media elements.
pub open spec fn media_namespace() -> Seq<u8> {
    encode_utf8("http://search.yahoo.com/mrss/"@)
}

/// The body declares the podcast elements or the media elements: one of
/// the two names stands in it.
pub open spec fn declares_media(body: Seq<u8>) -> bool {
    occurs_in(podcast_namespace(), body) || occurs_in(media_namespace(), body)
}

/// The bodies that the library hands to the parser itself. In the podcast
/// and the media elements the parser reads play times with a routine that
/// gives up on a number it cannot hold, and it follows nested elements as
/// deep as they go; so a body that declares either is left to the caller. A
/// body with a zero byte or an escape byte is left to the caller as well: in
/// an encoding that uses those, the two names need not stand in the body
/// byte for byte. And the body is short enough for the parser's 32-bit
/// counters.
pub open spec fn admitted(body: Seq<u8>) -> bool {
    &&& body.len() <= u32::MAX
    &&& !body.contains(0u8)
    &&& !body.contains(0x1bu8)
    &&& !declares_media(body)
}

/// A document as far as the body alone decides it. The parser invents the
/// id of an entry that has neither id nor link, so the id of an entry
/// without a link is left out.
pub open spec fn settled_part(document: ParsedFeedView) -> ParsedFeedView {
    ParsedFeedView {
        title: document.title,
        entries: document.entries.map_values(
            |entry: EntryView|
                if entry.links.len() == 0 {
                    EntryView {
                        id: None,
                        links: entry.links,
                        title: entry.title,
                        summary: entry.summary,
                        published: entry.published,
                        updated: entry.updated,
                    }
                } else {
                    entry
                },
        ),
    }
}

/// What the parser makes of a body, as far as the body alone decides it:
/// the settled part of the document, or nothing where it makes none.
pub uninterp spec fn parsed(body: Seq<u8>) -> Option<ParsedFeedView>;

/// The parser makes a document of the body.
pub open spec fn parses(body: Seq<u8>) -> bool {
    parsed(body) is Some
}

/// Parses a feed document with `feed_rs::parser::parse` and hands on, of
/// each entry, its id, the addresses of its links, the text of its title and
/// summary, and its two times in whole seconds since the epoch
/// (`chrono::DateTime::timestamp`). Trusted: whether a document comes out,
/// and all of it but the ids of entries without a link, depends on the body
/// alone. Of those ids nothing is claimed: the parser invents an id for an
/// entry that has neither id nor link. Only admitted bodies are taken: on
/// others the parser's reading of play times (`parser::util::parse_npt`) can
/// unwind, and its descent into nested podcast categories and media contents
/// has no end but the stack's.
#[verifier::external_body]
fn parse_document(body: &[u8]) -> (document: Result<ParsedFeed, feed_rs::parser::ParseFeedError>)
    requires
        admitted(body@),
    ensures
        match document {
            Ok(feed) => parsed(body@) == Some(settled_part(feed@)),
            Err(_) => parsed(body@) is None,
        },
{
    let feed = feed_rs::parser::parse(body)?;
    let entries = feed.entries.into_iter().map(|entry| ParsedEntry {
        id: Some(entry.id),
        links: entry.links.into_iter().map(|link| link.href).collect(),
        title: entry.title.map(|text| text.content),
        summary: entry.summary.map(|text| text.content),
        published: entry.published.map(|at| at.timestamp()),
        updated: entry.updated.map(|at| at.timestamp()),
    }).collect();
    Ok(ParsedFeed { title: feed.title.map(|text| text.content), entries })
}

/// Tells whether the byte stands somewhere in the body.
fn has_byte(body: &[u8], byte: u8) -> (found: bool)
    ensures
        found == body@.contains(byte),
{
    let mut i: usize = 0;
    while i < body.len()
        invariant
            i <= body@.len(),
            forall|k: int| 0 <= k < i ==> body@[k] != byte,
        decreases body@.len() - i,
    {
        if body[i] == byte {
            return true;
        }
        i = i + 1;
    }
    false
}

/// Tells whether the body declares the podcast or the media elements.
fn holds_media(body: &[u8]) -> (found: bool)
    ensures
        found == declares_media(body@),
{
    contains_bytes(body, "http://www.itunes.com/dtds/podcast-1.0.dtd".as_bytes()) || contains_bytes(
        body,
        "http://search.yahoo.com/mrss/".as_bytes(),
    )
}

/// Tells whether the body is one that is handed to the parser.
pub fn admits(body: &[u8]) -> (admitted: bool)
    ensures
        admitted == self::admitted(body@),
{
    body.len() <= 0xffff_ffff && !has_byte(body, 0) && !has_byte(body, 0x1b) && !holds_media(body)
}

/// Copies an optional string slice.
fn owned(text: Option<&str>) -> (copy: Option<String>)
    ensures
        text_view(copy) == slice_view(text),
{
    match text {
        Some(s) => Some(String::from_str(s)),
        None => None,
    }
}

/// The request for a feed: its address, and the cached validators as
/// conditions, each where it is cached.
pub fn conditional_request(url: &str, etag: Option<&str>, last_modified: Option<&str>) -> (request:
    Request)
    ensures
        request@ == (RequestView {
            url: url@,
            if_none_match: slice_view(etag),
            if_modified_since: slice_view(last_modified),
        }),
{
    Request {
        url: String::from_str(url),
        if_none_match: owned(etag),
        if_modified_since: owned(last_modified),
    }
}

/// Reads a status.
pub fn classify(status: u16) -> (class: StatusClass)
    ensures
        class == status_class(status),
{
    if status == NOT_MODIFIED {
        StatusClass::NotModified
    } else if 200 <= status && status < 300 {
        StatusClass::Success
    } else {
        StatusClass::Failure
    }
}

/// The result of a fetch whose response was a success, given what the
/// parser made of its body: the document with the response's validators, or
/// a parse failure.
pub fn concluded(
    etag: Option<String>,
    last_modified: Option<String>,
    parsed: Result<ParsedFeed, feed_rs::parser::ParseFeedError>,
) -> (result: Result<Fetched, FetchError>)
    ensures
        match parsed {
            Ok(document) => result == Ok::<Fetched, FetchError>(
                Fetched { etag, last_modified, payload: Some(document) },
            ),
            Err(_) => result == Err::<Fetched, FetchError>(FetchError::Parse),
        },
{
    match parsed {
        Ok(document) => Ok(Fetched { etag, last_modified, payload: Some(document) }),
        Err(_) => Err(FetchError::Parse),
    }
}

/// A successful response whose body the library does not hand to the
/// parser itself.
#[derive(Debug, PartialEq, Eq)]
pub struct Unparsed {
    pub etag: Option<String>,
    pub last_modified: Option<String>,
    pub body: Vec<u8>,
}

/// What the library makes of a response.
#[derive(Debug, PartialEq, Eq)]
pub enum Reading {
    /// The fetch is over, with this result.
    Settled(Result<Fetched, FetchError>),
    /// The body is left to the caller, who has it parsed and hands what
    /// comes of it, with the two validators, to [`concluded`].
    Unparsed(Unparsed),
}

/// What a response means. A 304 gives no payload and keeps every cached
/// validator that the response does not replace. A success whose body is
/// admitted gives the document that the parser makes of it, with the
/// response's own validators, or a parse failure where the parser makes
/// none; a body that is not admitted is handed back unparsed, with the
/// response's validators. Any other status is a failure that names the
/// status.
pub fn interpret(
    response: Response,
    cached_etag: Option<&str>,
    cached_last_modified: Option<&str>,
) -> (reading: Reading)
    ensures
        match status_class(response.status) {
            StatusClass::NotModified => (reading matches Reading::Settled(Ok(fetched))
                && fetched@ == (FetchedView {
                etag: carried(text_view(response.etag), slice_view(cached_etag)),
                last_modified: carried(
                    text_view(response.last_modified),
                    slice_view(cached_last_modified),
                ),
                payload: None,
            })),
            StatusClass::Success => if admitted(response.body@) {
                match reading {
                    Reading::Settled(Ok(fetched)) => fetched.etag == response.etag
                        && fetched.last_modified == response.last_modified && (
                    fetched.payload matches Some(document) && parsed(response.body@) == Some(
                        settled_part(document@),
                    )),
                    Reading::Settled(Err(error)) => error == FetchError::Parse && !parses(
                        response.body@,
                    ),
                    Reading::Unparsed(_) => false,
                }
            } else {
                reading == Reading::Unparsed(
                    Unparsed {
                        etag: response.etag,
                        last_modified: response.last_modified,
                        body: response.body,
                    },
                )
            },
            StatusClass::Failure => reading == Reading::Settled(
                Err(FetchError::HttpStatus(response.status)),
            ),
        },
        response.status == NOT_MODIFIED && cached_etag is Some ==> (reading matches Reading::Settled(
            Ok(fetched),
        ) && fetched.etag is Some),
        response.status == NOT_MODIFIED && cached_last_modified is Some ==> (
        reading matches Reading::Settled(Ok(fetched)) && fetched.last_modified is Some),
{
    let Response { status, etag, last_modified, body } = response;
    match classify(status) {
        StatusClass::NotModified => {
            let etag = match etag {
                Some(sent) => Some(sent),
                None => owned(cached_etag),
            };
            let last_modified = match last_modified {
                Some(sent) => Some(sent),
                None => owned(cached_last_modified),
            };
            Reading::Settled(Ok(Fetched { etag, last_modified, payload: None }))
        },
        StatusClass::Success => {
            if admits(body.as_slice()) {
                let document = parse_document(body.as_slice());
                Reading::Settled(concluded(etag, last_modified, document))
            } else {
                Reading::Unparsed(Unparsed { etag, last_modified, body })
            }
        },
        StatusClass::Failure => Reading::Settled(Err(FetchError::HttpStatus(status))),
    }
}

} // verus!
