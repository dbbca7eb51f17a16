use mcproto_rs::status::{join_favicon_text, split_favicon_text, StatusFaviconSpec};

#[test]
fn favicon_text_is_a_data_url() {
    let icon = StatusFaviconSpec { content_type: "image/png".to_owned(), data: b"hello world".to_vec() };
    assert_eq!(icon.to_text(), "data:image/png;base64,aGVsbG8gd29ybGQ=");
    let empty = StatusFaviconSpec { content_type: String::new(), data: vec![] };
    assert_eq!(empty.to_text(), "data:;base64,");
}

#[test]
fn favicon_text_reads_back() {
    for data in [vec![], vec![0u8], vec![1, 2], vec![1, 2, 3], (0..=255u8).collect::<Vec<u8>>()] {
        let icon = StatusFaviconSpec { content_type: "image/png".to_owned(), data };
        assert_eq!(StatusFaviconSpec::from_text(&icon.to_text()), Some(icon));
    }
    assert_eq!(
        StatusFaviconSpec::from_text("data:text/plain;base64,aGVsbG8gd29ybGQ="),
        Some(StatusFaviconSpec {
            content_type: "text/plain".to_owned(),
            data: b"hello world".to_vec()
        })
    );
}

#[test]
fn favicon_text_of_another_form_is_refused() {
    assert_eq!(StatusFaviconSpec::from_text(""), None);
    assert_eq!(StatusFaviconSpec::from_text("data"), None);
    assert_eq!(StatusFaviconSpec::from_text("date:image/png;base64,aGk="), None);
    assert_eq!(StatusFaviconSpec::from_text("data:image/png"), None);
    assert_eq!(StatusFaviconSpec::from_text("data:image/png;base32,aGk="), None);
    assert_eq!(StatusFaviconSpec::from_text("data:image/png;base64"), None);
    assert_eq!(StatusFaviconSpec::from_text("data:image/png;base64,a"), None);
    assert_eq!(StatusFaviconSpec::from_text("data:image/png;base64,!!!!"), None);
    assert_eq!(StatusFaviconSpec::from_text("data:imagé/png;base64,aGk="), None);
}

#[test]
fn favicon_format_ends_at_the_first_semicolon() {
    assert_eq!(StatusFaviconSpec::from_text("data:a;b;base64,aGk="), None);
    assert_eq!(
        StatusFaviconSpec::from_text("data:;base64,aGk="),
        Some(StatusFaviconSpec { content_type: String::new(), data: b"hi".to_vec() })
    );
}

#[test]
fn favicon_text_joins_and_splits() {
    assert_eq!(join_favicon_text("image/png", "aGk="), "data:image/png;base64,aGk=");
    assert_eq!(split_favicon_text("data:image/png;base64,aGk="), Some(("image/png", "aGk=")));
    assert_eq!(split_favicon_text("data:image/png;base64,"), Some(("image/png", "")));
    assert_eq!(split_favicon_text("data:;base64,not base64"), Some(("", "not base64")));
    assert_eq!(split_favicon_text("data:image/png,aGk="), None);
    assert_eq!(split_favicon_text("Data:image/png;base64,aGk="), None);
}
