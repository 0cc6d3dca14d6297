//! Who may use the HTTP API, and how the interface is served.

use crate::text::{is_prefix, str_view, strip_prefix, text_eq};
use vstd::prelude::*;
use vstd::string::*;
use vstd::utf8::{decode_utf8, valid_utf8};

verus! {

/// Whether a request is let through: where no token is asked for, where it only
/// asks after the server's health, or where it bears the token.
pub open spec fn lets_through(
    expected_token: Option<Seq<char>>,
    path: Seq<char>,
    authorization: Option<Seq<char>>,
) -> bool {
    match expected_token {
        None => true,
        Some(token) => {
            ||| path == "/api/health"@
            ||| path == "/health"@
            ||| authorization == Some("Bearer "@ + token)
        },
    }
}

/// Decides whether a request is let through. `authorization` is its header of
/// that name, where it is text.
pub fn is_authorized(expected_token: Option<&str>, path: &str, authorization: Option<&str>) -> (authorized: bool)
    ensures
        authorized == lets_through(str_view(expected_token), path@, str_view(authorization)),
{
    let token = match expected_token {
        Some(token) => token,
        None => {
            return true;
        },
    };
    if text_eq(path, "/api/health") || text_eq(path, "/health") {
        return true;
    }
    match authorization {
        Some(value) => match strip_prefix(value, "Bearer ") {
            Some(given) => {
                let same = text_eq(given, token);
                proof {
                    let mark = "Bearer "@;
                    assert(value@ =~= value@.take(mark.len() as int) + given@);
                    if value@ == mark + token@ {
                        assert(value@.skip(mark.len() as int) =~= token@);
                    }
                }
                same
            },
            None => {
                proof {
                    let mark = "Bearer "@;
                    if value@ == mark + token@ {
                        assert(value@.take(mark.len() as int) =~= mark);
                        assert(is_prefix(mark, value@));
                    }
                }
                false
            },
        },
        None => false,
    }
}

/// A path without the slashes that it begins with.
pub open spec fn without_leading_slashes(path: Seq<char>) -> Seq<char>
    decreases path.len(),
{
    if path.len() > 0 && path[0] == '/' {
        without_leading_slashes(path.drop_first())
    } else {
        path
    }
}

/// The name of the asset that a path asks for.
pub fn asset_name<'a>(path: &'a str) -> (name: &'a str)
    ensures
        name@ == without_leading_slashes(path@),
{
    let chars = crate::text::chars_of(path);
    let mut start: usize = 0;
    assert(path@.skip(0) =~= path@);
    while start < chars.len() && chars[start] == '/'
        invariant
            start <= chars.len(),
            chars@ == path@,
            without_leading_slashes(path@) == without_leading_slashes(path@.skip(start as int)),
        decreases chars.len() - start,
    {
        assert(path@.skip(start as int).drop_first() =~= path@.skip(start + 1));
        start = start + 1;
    }
    assert(path@.subrange(start as int, path@.len() as int) =~= path@.skip(start as int));
    path.substring_char(start, chars.len())
}

/// Whether a name is read as the same path on every machine: it holds no
/// character that some take for a separator or for the end of a drive's name,
/// and it does not begin with a slash.
pub open spec fn is_portable(name: Seq<char>) -> bool {
    &&& !name.contains('\\')
    &&& !name.contains(':')
    &&& name.len() > 0 ==> name[0] != '/'
}

/// The media type that is guessed from a portable name.
pub uninterp spec fn media_type(name: Seq<char>) -> Seq<char>;

/// Guesses a media type: `mime_guess::from_path` and
/// `mime_guess::MimeGuess::first_or_octet_stream`. The result depends on the name
/// alone where the name is portable; how any other name is taken apart, and what
/// is guessed from it, is up to the machine. Without a dot there is no extension
/// to go by, and the guess is `application/octet-stream`.
#[verifier::external_body]
fn guess_media_type(name: &str) -> (guessed: String)
    ensures
        is_portable(name@) ==> guessed@ == media_type(name@),
        !name@.contains('.') ==> guessed@ == "application/octet-stream"@,
{
    mime_guess::from_path(name).first_or_octet_stream().as_ref().to_owned()
}

/// Reads bytes as text: `std::str::from_utf8`, which succeeds where the bytes are
/// UTF-8.
#[verifier::external_body]
fn text_of_bytes(bytes: &Vec<u8>) -> (text: Option<String>)
    ensures
        match text {
            Some(value) => valid_utf8(bytes@) && value@ == decode_utf8(bytes@),
            None => !valid_utf8(bytes@),
        },
{
    std::str::from_utf8(bytes).ok().map(|text| text.to_owned())
}

/// How a request for a part of the interface is answered.
#[derive(Debug, Clone, PartialEq)]
pub enum StaticResponse {
    /// With the asset, of a media type.
    Asset { content_type: String },
    /// With the page that everything starts from.
    Page(String),
    NotFound,
}

/// The text of a page: none where it is not UTF-8.
pub open spec fn page_text(bytes: Seq<u8>) -> Seq<char> {
    if valid_utf8(bytes) {
        decode_utf8(bytes)
    } else {
        Seq::empty()
    }
}

/// Decides how a request for an asset is answered: with it, of its media type,
/// where there is one; else with the page that everything starts from, where
/// there is that.
pub fn asset_response(content_type: Option<String>, index: Option<&Vec<u8>>) -> (response: StaticResponse)
    ensures
        match response {
            StaticResponse::Asset { content_type: given } => content_type == Some(given),
            StaticResponse::Page(text) => content_type is None && index is Some && text@
                == page_text(index->0@),
            StaticResponse::NotFound => content_type is None && index is None,
        },
{
    match content_type {
        Some(content_type) => StaticResponse::Asset { content_type },
        None => match index {
            Some(bytes) => match text_of_bytes(bytes) {
                Some(text) => StaticResponse::Page(text),
                None => StaticResponse::Page(String::new()),
            },
            None => StaticResponse::NotFound,
        },
    }
}

/// Decides how a request for an asset is answered, with the media type that its
/// name stands for.
pub fn static_response(name: &str, found: bool, index: Option<&Vec<u8>>) -> (response: StaticResponse)
    ensures
        match response {
            StaticResponse::Asset { content_type } => {
                &&& found
                &&& is_portable(name@) ==> content_type@ == media_type(name@)
                &&& !name@.contains('.') ==> content_type@ == "application/octet-stream"@
            },
            StaticResponse::Page(text) => !found && index is Some && text@ == page_text(index->0@),
            StaticResponse::NotFound => !found && index is None,
        },
{
    let content_type = if found {
        Some(guess_media_type(name))
    } else {
        None
    };
    asset_response(content_type, index)
}

/// Without its token nobody gets at anything but the server's health.
pub proof fn law_token_is_required(token: Seq<char>, path: Seq<char>, authorization: Option<Seq<char>>)
    requires
        path != "/api/health"@ && path != "/health"@,
        lets_through(Some(token), path, authorization),
    ensures
        authorization == Some("Bearer "@ + token),
{
}

/// Whoever bears the token, and whoever asks after the server's health, is let
/// through; so is everybody where no token is asked for. A token that is longer or
/// shorter is none.
pub proof fn law_token_opens(
    token: Seq<char>,
    path: Seq<char>,
    given: Seq<char>,
    authorization: Option<Seq<char>>,
)
    ensures
        lets_through(None, path, authorization),
        lets_through(Some(token), "/health"@, authorization),
        lets_through(Some(token), "/api/health"@, authorization),
        path != "/api/health"@ && path != "/health"@ ==> (lets_through(
            Some(token),
            path,
            Some("Bearer "@ + given),
        ) <==> given == token),
        path != "/api/health"@ && path != "/health"@ ==> !lets_through(Some(token), path, None),
{
    let mark = "Bearer "@;
    if mark + given == mark + token {
        assert((mark + given).skip(mark.len() as int) =~= given);
        assert((mark + token).skip(mark.len() as int) =~= token);
    }
}

/// All the slashes that a path begins with are taken off, and nothing else.
pub proof fn law_leading_slashes_are_taken_off(path: Seq<char>, count: int)
    requires
        0 <= count <= path.len(),
        forall|i: int| 0 <= i < count ==> #[trigger] path[i] == '/',
        count < path.len() ==> path[count] != '/',
    ensures
        without_leading_slashes(path) == path.skip(count),
    decreases count,
{
    if count > 0 {
        assert(path[0] == '/');
        let rest = path.drop_first();
        assert forall|i: int| 0 <= i < count - 1 implies #[trigger] rest[i] == '/' by {
            assert(path[i + 1] == '/');
        }
        law_leading_slashes_are_taken_off(rest, count - 1);
        assert(rest.skip(count - 1) =~= path.skip(count));
    } else {
        assert(path.skip(0) =~= path);
    }
}

/// An asset is answered with its type, and where there is none with the page that
/// everything starts from: in its own words, or empty where they cannot be read.
pub proof fn law_page_stands_in_for_assets(
    content_type: Option<String>,
    index: Option<&Vec<u8>>,
    response: StaticResponse,
)
    requires
        call_ensures(asset_response, (content_type, index), response),
    ensures
        content_type matches Some(given) ==> response == (StaticResponse::Asset {
            content_type: given,
        }),
        content_type is None && index is None ==> response is NotFound,
        content_type is None && index is Some ==> (response matches StaticResponse::Page(text) && (
        valid_utf8(index->0@) ==> text@ == decode_utf8(index->0@)) && (!valid_utf8(index->0@)
            ==> text@.len() == 0)),
{
}

} // verus!
