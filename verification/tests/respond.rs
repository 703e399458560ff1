use skicka::respond::{content_disposition_value, first_line, index_body, Rejection};

#[test]
fn first_line_is_the_bare_id_without_a_remote() {
    let line = first_line(&None, &"swift-otter".to_string());
    assert_eq!(line, "swift-otter\r\n");
}

#[test]
fn first_line_becomes_a_full_link_with_a_remote() {
    let remote = Some("https://relay.example".to_string());
    let line = first_line(&remote, &"swift-otter".to_string());
    assert_eq!(line, "https://relay.example/swift-otter\r\n");
}

#[test]
fn content_disposition_quotes_the_suggested_name() {
    let value = content_disposition_value(&"hi.txt".to_string());
    assert_eq!(value, "attachment; filename=\"hi.txt\"");
}

#[test]
fn index_body_is_the_motto_or_nothing() {
    assert_eq!(index_body(&Some("share away".to_string())), "share away");
    assert_eq!(index_body(&None), "");
}

#[test]
fn not_found_is_a_404_with_its_short_body() {
    let r = Rejection::NotFound;
    assert_eq!(r.status_code(), 404);
    assert_eq!(r.body_text(), "no such connection found\r\n");
}

#[test]
fn overload_is_a_503_with_its_short_body() {
    let r = Rejection::Overloaded;
    assert_eq!(r.status_code(), 503);
    assert_eq!(r.body_text(), "server overloaded, please try again later");
}
