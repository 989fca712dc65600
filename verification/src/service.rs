//! What a listener's request is answered with: which paths there are, and
//! the status and headers of each answer.

use vstd::prelude::*;

verus! {

/// What a request asks for.
#[derive(Clone, Copy, Debug, PartialEq, Eq, Structural)]
pub enum Route {
    /// The page that plays the stream.
    Index,
    /// The stream itself.
    Stream,
    /// Anything else.
    NotFound,
}

/// How a request is answered.
#[derive(Clone, Copy, Debug, PartialEq, Eq, Structural)]
pub enum Reply {
    /// The page, in full.
    Page,
    /// The open-ended stream of compressed audio.
    Audio,
    /// No encoder session could be made for the listener.
    EncoderUnavailable,
    /// There is nothing at the path.
    NotFound,
}

/// The path of the page: `/`.
pub open spec fn index_path() -> Seq<u8> {
    seq![0x2fu8]
}

/// The path of the stream: `/stream.mp3`.
pub open spec fn stream_path() -> Seq<u8> {
    seq![0x2fu8, 0x73u8, 0x74u8, 0x72u8, 0x65u8, 0x61u8, 0x6du8, 0x2eu8, 0x6du8, 0x70u8, 0x33u8]
}

/// What a request with the given method and path asks for: only a `GET`
/// of one of the two paths asks for anything.
pub open spec fn route_of(is_get: bool, path: Seq<u8>) -> Route {
    if is_get && path == index_path() {
        Route::Index
    } else if is_get && path == stream_path() {
        Route::Stream
    } else {
        Route::NotFound
    }
}

/// How a request is answered, given whether an encoder session could be
/// made for it.
pub open spec fn reply_of(route: Route, encoder_ready: bool) -> Reply {
    match route {
        Route::Index => Reply::Page,
        Route::Stream => if encoder_ready {
            Reply::Audio
        } else {
            Reply::EncoderUnavailable
        },
        Route::NotFound => Reply::NotFound,
    }
}

/// The status code of an answer.
pub open spec fn status_of(reply: Reply) -> u16 {
    match reply {
        Reply::Page => 200,
        Reply::Audio => 200,
        Reply::EncoderUnavailable => 500,
        Reply::NotFound => 404,
    }
}

/// What a request with the given method and path asks for.
pub fn route(is_get: bool, path: &[u8]) -> (route: Route)
    ensures
        route == route_of(is_get, path@),
{
    if !is_get {
        return Route::NotFound;
    }
    if path.len() == 1 && path[0] == 0x2f {
        assert(path@ =~= index_path());
        return Route::Index;
    }
    if path.len() == 11 && path[0] == 0x2f && path[1] == 0x73 && path[2] == 0x74 && path[3] == 0x72
        && path[4] == 0x65 && path[5] == 0x61 && path[6] == 0x6d && path[7] == 0x2e && path[8]
        == 0x6d && path[9] == 0x70 && path[10] == 0x33 {
        assert(path@ =~= stream_path());
        return Route::Stream;
    }
    proof {
        if path@ == index_path() {
            assert(path@.len() == 1 && path@[0] == 0x2f);
        }
        if path@ == stream_path() {
            assert(path@.len() == 11);
            assert(path@[0] == 0x2f && path@[1] == 0x73 && path@[2] == 0x74 && path@[3] == 0x72);
            assert(path@[4] == 0x65 && path@[5] == 0x61 && path@[6] == 0x6d && path@[7] == 0x2e);
            assert(path@[8] == 0x6d && path@[9] == 0x70 && path@[10] == 0x33);
        }
    }
    Route::NotFound
}

/// How a request is answered, given whether an encoder session could be
/// made for it. Failing to make one is answered before any byte of audio.
pub fn reply(route: Route, encoder_ready: bool) -> (reply: Reply)
    ensures
        reply == reply_of(route, encoder_ready),
{
    match route {
        Route::Index => Reply::Page,
        Route::Stream => {
            if encoder_ready {
                Reply::Audio
            } else {
                Reply::EncoderUnavailable
            }
        },
        Route::NotFound => Reply::NotFound,
    }
}

/// The status code of an answer.
pub fn status(reply: Reply) -> (code: u16)
    ensures
        code == status_of(reply),
{
    match reply {
        Reply::Page => 200,
        Reply::Audio => 200,
        Reply::EncoderUnavailable => 500,
        Reply::NotFound => 404,
    }
}

/// The media type of an answer, where it declares one.
pub fn content_type(reply: Reply) -> (media: Option<&'static str>)
    ensures
        reply == Reply::Page ==> (media matches Some(m) && m@ == "text/html"@),
        reply == Reply::Audio ==> (media matches Some(m) && m@ == "audio/mp3"@),
        reply == Reply::EncoderUnavailable || reply == Reply::NotFound ==> media is None,
{
    match reply {
        Reply::Page => Some("text/html"),
        Reply::Audio => Some("audio/mp3"),
        _ => None,
    }
}

/// Whether the answer tells the listener not to cache it: the stream does,
/// nothing else.
pub fn no_cache(reply: Reply) -> (directive: bool)
    ensures
        directive == (reply == Reply::Audio),
{
    reply == Reply::Audio
}

/// The text that an answer without audio or page carries.
pub fn message(reply: Reply) -> (text: Option<&'static str>)
    ensures
        reply == Reply::EncoderUnavailable ==> (text matches Some(t) && t@
            == "Failed to initalise audio encoder"@),
        reply == Reply::NotFound ==> (text matches Some(t) && t@ == "Not found"@),
        reply == Reply::Page || reply == Reply::Audio ==> text is None,
{
    match reply {
        Reply::EncoderUnavailable => Some("Failed to initalise audio encoder"),
        Reply::NotFound => Some("Not found"),
        _ => None,
    }
}

/// A stream is answered with audio exactly when an encoder session could
/// be made; when none could, the answer is a server error.
pub proof fn lemma_encoder_failure_is_server_error(encoder_ready: bool)
    ensures
        reply_of(Route::Stream, encoder_ready) == Reply::Audio <==> encoder_ready,
        !encoder_ready ==> status_of(reply_of(Route::Stream, encoder_ready)) == 500,
{
}

} // verus!
