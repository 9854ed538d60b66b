use ttt::place::{is_local, place_of_url, storage_place, PlaceError};

#[test]
fn paths_on_this_machine() {
    assert!(is_local("./notes.ron"));
    assert!(is_local("~/notes.ron"));
    assert!(is_local("."));
    assert!(is_local("..\\up"));
    assert!(!is_local(""));
    assert!(!is_local("/tmp/notes.ron"));
    assert!(!is_local("file:///tmp/notes.ron"));
    assert!(!is_local("notes.ron"));
    assert_eq!(storage_place("./notes.ron"), Ok("./notes.ron".to_string()));
    assert_eq!(storage_place("~"), Ok("~".to_string()));
    assert_eq!(
        storage_place("./with space/\u{e9}"),
        Ok("./with space/\u{e9}".to_string())
    );
}

#[test]
fn places_of_urls() {
    assert_eq!(
        place_of_url("file".to_string(), "/tmp/x".to_string()),
        Ok("/tmp/x".to_string())
    );
    assert_eq!(
        place_of_url("file".to_string(), "".to_string()),
        Ok("".to_string())
    );
    for scheme in ["http", "files", "fil", "FILE", "", "fily"] {
        assert_eq!(
            place_of_url(scheme.to_string(), "/tmp/x".to_string()),
            Err(PlaceError::Scheme(scheme.to_string()))
        );
    }
}

#[test]
fn file_urls_name_their_path() {
    assert_eq!(
        storage_place("file:///tmp/notes.ron"),
        Ok("/tmp/notes.ron".to_string())
    );
    assert_eq!(
        storage_place("FILE:///tmp/a%20b"),
        Ok("/tmp/a%20b".to_string())
    );
    assert_eq!(
        storage_place("file:///tmp/a b?query#fragment"),
        Ok("/tmp/a%20b".to_string())
    );
}

#[test]
fn other_texts_name_no_place() {
    assert_eq!(
        storage_place("https://example.net/notes"),
        Err(PlaceError::Scheme("https".to_string()))
    );
    assert_eq!(
        storage_place("mailto:someone@example.net"),
        Err(PlaceError::Scheme("mailto".to_string()))
    );
    assert_eq!(
        storage_place("notes.ron"),
        Err(PlaceError::NotAUrl(
            url::ParseError::RelativeUrlWithoutBase.to_string()
        ))
    );
    assert_eq!(
        storage_place("/tmp/notes.ron"),
        Err(PlaceError::NotAUrl(
            url::ParseError::RelativeUrlWithoutBase.to_string()
        ))
    );
    assert_eq!(
        storage_place(""),
        Err(PlaceError::NotAUrl(
            url::ParseError::RelativeUrlWithoutBase.to_string()
        ))
    );
    assert!(matches!(
        storage_place("http://[::1"),
        Err(PlaceError::NotAUrl(_))
    ));
}
