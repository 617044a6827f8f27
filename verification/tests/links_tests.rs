use tsurust::links::{percent_decode, room_id_from_location, server_url_from_query};
use tsurust::lobby::normalize_lobby_id;
use tsurust::session::verify_sender;

#[test]
fn server_url_is_parsed_from_query() {
    assert_eq!(server_url_from_query("?server=wss://host.example:8080"), Some("wss://host.example:8080".into()));
    // Percent-encoded (the shape produced by encodeURIComponent).
    assert_eq!(
        server_url_from_query("?server=wss%3A%2F%2Fabc123.trycloudflare.com"),
        Some("wss://abc123.trycloudflare.com".into())
    );
    // Coexists with other params in any order.
    assert_eq!(server_url_from_query("?room=ABCD&server=wss://h"), Some("wss://h".into()));
    assert_eq!(server_url_from_query("?room=ABCD"), None);
    assert_eq!(server_url_from_query(""), None);
    // Present but empty is treated as absent.
    assert_eq!(server_url_from_query("?server="), None);
}

#[test]
fn percent_decode_handles_escapes_and_stray_percent() {
    assert_eq!(percent_decode("wss%3A%2F%2Fh"), "wss://h");
    assert_eq!(percent_decode("a+b"), "a b");
    assert_eq!(percent_decode("plain"), "plain");
    // A truncated escape is passed through rather than dropped.
    assert_eq!(percent_decode("100%"), "100%");
    assert_eq!(percent_decode("bad%zz"), "bad%zz");
}

#[test]
fn server_values_are_trimmed_and_blank_ones_skipped() {
    assert_eq!(server_url_from_query("??server=+wss://h+"), Some("wss://h".into()));
    assert_eq!(server_url_from_query("server=%20&server=ws://b"), Some("ws://b".into()));
    assert_eq!(server_url_from_query("servers=x&server"), None);
    assert_eq!(server_url_from_query("a=1&&server=x=y"), Some("x=y".into()));
    assert_eq!(percent_decode("%41%62c%2"), "Abc%2");
    assert_eq!(percent_decode("%e2%82%ac"), "€");
    assert_eq!(percent_decode("%ff"), "\u{fffd}");
}

#[test]
fn requests_are_accepted_only_from_their_room_and_player() {
    let room = "ROOM".to_string();
    assert!(verify_sender(&room, Some(1), &Some("ROOM".to_string()), &Some(1)).is_ok());
    assert!(verify_sender(&room, None, &Some("ROOM".to_string()), &None).is_ok());
    assert_eq!(
        verify_sender(&room, Some(1), &Some("OTHER".to_string()), &Some(1)).unwrap_err(),
        "This connection is not in room 'ROOM'"
    );
    assert_eq!(verify_sender(&room, Some(1), &None, &Some(1)).unwrap_err(), "This connection is not in room 'ROOM'");
    assert_eq!(
        verify_sender(&room, Some(2), &Some("ROOM".to_string()), &Some(1)).unwrap_err(),
        "This connection cannot act as player 2"
    );
    assert_eq!(
        verify_sender(&room, Some(2), &Some("ROOM".to_string()), &None).unwrap_err(),
        "This connection cannot act as player 2"
    );
}

/// URL-based room joining: `/ABCD` or `#ABCD` should yield a normalized room
/// id; anything else should be ignored.
#[test]
fn room_ids_are_parsed_from_url_path_or_fragment() {
    assert_eq!(room_id_from_location("/ABCD", ""), Some("ABCD".into()));
    assert_eq!(room_id_from_location("/abcd/", ""), Some("ABCD".into()));
    assert_eq!(room_id_from_location("/", "#WXYZ"), Some("WXYZ".into()));
    // The fragment wins over the path when both are present.
    assert_eq!(room_id_from_location("/ABCD", "#WXYZ"), Some("WXYZ".into()));
    assert_eq!(room_id_from_location("/", ""), None);
    assert_eq!(room_id_from_location("/index.html", ""), None);
    assert_eq!(room_id_from_location("/toolong", "#nope!"), None);
}

#[test]
fn lobby_ids_are_four_letters_in_capitals() {
    assert_eq!(normalize_lobby_id("qWeR"), Some("QWER".into()));
    assert_eq!(normalize_lobby_id("AB1D"), None);
    assert_eq!(normalize_lobby_id("ABC"), None);
    assert_eq!(normalize_lobby_id("ABCDE"), None);
    assert_eq!(room_id_from_location("//ab/cd//", ""), None);
    assert_eq!(room_id_from_location("/xyzw", "##"), Some("XYZW".into()));
}
