use static_zip::response::{
    assemble_response, full_url, member_path, missing_file_response, not_found_response,
    read_failure_response,
};
use static_zip::sitemap::ParsedSiteEntry;

#[test]
fn not_found_is_a_fixed_html_404() {
    let r = not_found_response();
    assert_eq!(r.status, 404);
    assert_eq!(r.content_type.as_deref(), Some("text/html"));
    assert_eq!(r.location, None);
    assert_eq!(
        r.body,
        b"<html><body><h1>404 - Page not found</h1></body></html>".to_vec()
    );
    assert_eq!(r.content_length(), r.body.len());
}

#[test]
fn missing_file_is_a_distinct_404() {
    let missing = missing_file_response();
    let not_found = not_found_response();
    assert_eq!(missing.status, 404);
    assert_eq!(missing.content_type.as_deref(), Some("text/html"));
    assert_eq!(
        missing.body,
        b"<html><body><h1>404 - File missing from archive</h1></body></html>".to_vec()
    );
    assert_ne!(missing.body, not_found.body);
}

#[test]
fn read_failure_is_a_fixed_500() {
    let r = read_failure_response();
    assert_eq!(r.status, 500);
    assert_eq!(r.content_type.as_deref(), Some("text/html"));
    assert_eq!(
        r.body,
        b"<html><body><h1>500 - Failed to read file</h1></body></html>".to_vec()
    );
    assert_ne!(r.body, not_found_response().body);
    assert_ne!(r.body, missing_file_response().body);
}

#[test]
fn assembled_response_copies_the_entry_verbatim() {
    let entry = ParsedSiteEntry {
        status: 301,
        location: Some("/new".to_owned()),
        content_type: None,
        filename: "old.html".to_owned(),
    };
    let body = b"moved away".to_vec();
    let r = assemble_response(&entry, body.clone());
    assert_eq!(r.status, 301);
    assert_eq!(r.location.as_deref(), Some("/new"));
    assert_eq!(r.content_type, None);
    assert_eq!(r.body, body);
    assert_eq!(r.content_length(), body.len());
}

#[test]
fn full_url_concatenates_path_and_query() {
    assert_eq!(full_url("/a/b.html", None), "/a/b.html");
    assert_eq!(full_url("/a/b.html", Some("x=1&y=2")), "/a/b.html?x=1&y=2");
    assert_eq!(full_url("/", Some("")), "/?");
}

#[test]
fn member_path_prepends_the_storage_prefix() {
    assert_eq!(member_path("old.html"), "files/old.html");
    assert_eq!(member_path(""), "files/");
    assert_eq!(member_path("a/b/c.css"), "files/a/b/c.css");
}
