use liked_shuffle::track::{collect_decoded, take_prefix, track_ids, TrackRef};
use liked_shuffle::uri::{extract_response_code, parse_playlist_uri, target_playlist_uri};

fn parse(s: &str) -> Option<String> {
    parse_playlist_uri(&s.as_bytes().to_vec()).map(|b| String::from_utf8(b).unwrap())
}

fn code(s: &str) -> Option<String> {
    extract_response_code(&s.as_bytes().to_vec()).map(|b| String::from_utf8(b).unwrap())
}

#[test]
fn target_uri_parses_to_its_identifier() {
    assert_eq!(
        parse(target_playlist_uri()),
        Some(String::from("7JrIBLVJEfpADiic1MKZy5"))
    );
}

#[test]
fn colon_and_slash_forms_both_parse() {
    assert_eq!(parse("spotify:playlist:abc123XYZ"), Some(String::from("abc123XYZ")));
    assert_eq!(parse("spotify/playlist/abc123XYZ"), Some(String::from("abc123XYZ")));
}

#[test]
fn wrong_prefix_or_type_is_refused() {
    assert_eq!(parse("spartify:playlist:abc"), None);
    assert_eq!(parse("spotify:track:abc"), None);
    assert_eq!(parse("spotify-playlist-abc"), None);
    assert_eq!(parse(""), None);
}

#[test]
fn mixed_separators_are_refused() {
    assert_eq!(parse("spotify:playlist/abc"), None);
    assert_eq!(parse("spotify/playlist:abc"), None);
}

#[test]
fn identifier_with_bad_bytes_is_refused() {
    assert_eq!(parse("spotify:playlist:abc:def"), None);
    assert_eq!(parse("spotify:playlist:abc!def"), None);
    assert_eq!(parse("spotify:playlist:abc def"), None);
}

#[test]
fn redirect_line_with_code_parameter() {
    assert_eq!(
        code("https://example.invalid/callback?code=AQDxyz123&state=k9"),
        Some(String::from("AQDxyz123"))
    );
}

#[test]
fn code_parameter_after_another_parameter() {
    assert_eq!(
        code("https://example.invalid/cb?state=k9&code=AQDxyz123"),
        Some(String::from("AQDxyz123"))
    );
}

#[test]
fn trailing_newline_does_not_join_the_code() {
    assert_eq!(code("https://example.invalid/cb?code=AQD\n"), Some(String::from("AQD")));
}

#[test]
fn fragment_ends_the_query() {
    assert_eq!(code("https://example.invalid/cb?code=AQD#frag"), Some(String::from("AQD")));
    assert_eq!(code("https://example.invalid/cb#frag?code=AQD"), None);
}

#[test]
fn lines_without_a_code_parameter_yield_nothing() {
    assert_eq!(code("https://example.invalid/cb"), None);
    assert_eq!(code("https://example.invalid/cb?state=k9"), None);
    assert_eq!(code("https://example.invalid/cb?xcode=5"), None);
    assert_eq!(code(""), None);
}

#[test]
fn empty_code_value_is_the_empty_string() {
    assert_eq!(code("https://example.invalid/cb?code="), Some(String::new()));
    assert_eq!(code("https://example.invalid/cb?code=&state=k"), Some(String::new()));
}

#[test]
fn decoding_failures_are_dropped_in_order() {
    let items = vec![
        Some(TrackRef { id: String::from("a"), name: String::from("one") }),
        None,
        Some(TrackRef { id: String::from("b"), name: String::from("two") }),
        None,
        Some(TrackRef { id: String::from("c"), name: String::from("three") }),
    ];
    let mut acc = Vec::new();
    collect_decoded(items, &mut acc);
    assert_eq!(track_ids(&acc), vec!["a", "b", "c"]);
}

#[test]
fn collect_appends_after_earlier_pages() {
    let first = vec![Some(TrackRef { id: String::from("a"), name: String::from("one") })];
    let second = vec![None, Some(TrackRef { id: String::from("b"), name: String::from("two") })];
    let mut acc = Vec::new();
    collect_decoded(first, &mut acc);
    collect_decoded(second, &mut acc);
    assert_eq!(track_ids(&acc), vec!["a", "b"]);
}

#[test]
fn track_ids_keep_the_order() {
    let tracks = vec![
        TrackRef { id: String::from("z"), name: String::from("last") },
        TrackRef { id: String::from("a"), name: String::from("first") },
    ];
    assert_eq!(track_ids(&tracks), vec!["z", "a"]);
}

#[test]
fn prefix_shows_at_most_the_asked_number() {
    let tracks: Vec<TrackRef> = (0..4)
        .map(|i| TrackRef { id: format!("t{i}"), name: format!("n{i}") })
        .collect();
    let few = take_prefix(&tracks, 2);
    assert_eq!(track_ids(&few), vec!["t0", "t1"]);
    let all = take_prefix(&tracks, 10);
    assert_eq!(all.len(), 4);
    assert_eq!(track_ids(&all), vec!["t0", "t1", "t2", "t3"]);
}
