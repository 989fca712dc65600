use radio_pipeline::service::{content_type, message, no_cache, reply, route, status, Reply, Route};

#[test]
fn get_of_the_root_is_the_page() {
    assert_eq!(route(true, b"/"), Route::Index);
}

#[test]
fn get_of_the_stream_path_is_the_stream() {
    assert_eq!(route(true, b"/stream.mp3"), Route::Stream);
}

#[test]
fn other_paths_are_not_found() {
    for path in ["", "/s", "/stream.mp", "/stream.mp3/", "/stream.mp4", "/Stream.mp3", "//", "/index.html"] {
        assert_eq!(route(true, path.as_bytes()), Route::NotFound, "{}", path);
    }
}

#[test]
fn other_methods_are_not_found() {
    assert_eq!(route(false, b"/"), Route::NotFound);
    assert_eq!(route(false, b"/stream.mp3"), Route::NotFound);
}

#[test]
fn stream_with_an_encoder_is_audio() {
    let r = reply(Route::Stream, true);
    assert_eq!(r, Reply::Audio);
    assert_eq!(status(r), 200);
    assert_eq!(content_type(r), Some("audio/mp3"));
    assert!(no_cache(r));
    assert_eq!(message(r), None);
}

#[test]
fn stream_without_an_encoder_is_a_server_error() {
    let r = reply(Route::Stream, false);
    assert_eq!(r, Reply::EncoderUnavailable);
    assert_eq!(status(r), 500);
    assert_eq!(content_type(r), None);
    assert!(!no_cache(r));
    assert_eq!(message(r), Some("Failed to initalise audio encoder"));
}

#[test]
fn page_is_html() {
    for ready in [true, false] {
        let r = reply(Route::Index, ready);
        assert_eq!(r, Reply::Page);
        assert_eq!(status(r), 200);
        assert_eq!(content_type(r), Some("text/html"));
        assert!(!no_cache(r));
        assert_eq!(message(r), None);
    }
}

#[test]
fn not_found_is_404() {
    for ready in [true, false] {
        let r = reply(Route::NotFound, ready);
        assert_eq!(r, Reply::NotFound);
        assert_eq!(status(r), 404);
        assert_eq!(content_type(r), None);
        assert!(!no_cache(r));
        assert_eq!(message(r), Some("Not found"));
    }
}
