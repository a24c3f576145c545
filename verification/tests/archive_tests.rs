use std::io::{Cursor, Write};

use static_zip::archive::{resolve_request, OverrideOutcome, StaticZipArchive};
use static_zip::response::{missing_file_response, not_found_response};
use static_zip::sitemap::{ArchiveSitemap, ParsedSiteEntry};

fn site_entry(
    status: u16,
    location: Option<&str>,
    content_type: Option<&str>,
    filename: &str,
) -> ParsedSiteEntry {
    ParsedSiteEntry {
        status,
        location: location.map(|s| s.to_owned()),
        content_type: content_type.map(|s| s.to_owned()),
        filename: filename.to_owned(),
    }
}

fn in_memory_archive(members: &[(&str, &[u8])]) -> zip::ZipArchive<Cursor<Vec<u8>>> {
    let mut writer = zip::write::ZipWriter::new(Cursor::new(Vec::new()));
    for (name, data) in members {
        writer
            .start_file(*name, zip::write::SimpleFileOptions::default())
            .unwrap();
        writer.write_all(data).unwrap();
    }
    let cursor = writer.finish().unwrap();
    zip::ZipArchive::new(cursor).unwrap()
}

#[test]
fn end_to_end_redirect_entry() {
    let archive = in_memory_archive(&[("files/old.html", b"this page moved")]);
    let index = ArchiveSitemap::build(vec![(
        "/old".to_owned(),
        site_entry(301, Some("/new"), None, "old.html"),
    )]);
    let mut server = StaticZipArchive::new(archive, index);

    let r = server.get_response_from_uri("/old").expect("index hit");
    assert_eq!(r.status, 301);
    assert_eq!(r.location.as_deref(), Some("/new"));
    assert_eq!(r.content_type, None);
    assert_eq!(r.body, b"this page moved".to_vec());
    assert_eq!(r.content_length(), b"this page moved".len());
}

#[test]
fn unknown_url_yields_no_response() {
    let archive = in_memory_archive(&[("files/a.html", b"a")]);
    let index = ArchiveSitemap::build(vec![(
        "/a".to_owned(),
        site_entry(200, None, Some("text/html"), "a.html"),
    )]);
    let mut server = StaticZipArchive::new(archive, index);
    assert!(server.get_response_from_uri("/missing").is_none());
}

#[test]
fn member_missing_from_archive_yields_distinct_404() {
    let archive = in_memory_archive(&[("files/real.html", b"real")]);
    let index = ArchiveSitemap::build(vec![(
        "/ghost".to_owned(),
        site_entry(200, None, Some("text/html"), "ghost.html"),
    )]);
    let mut server = StaticZipArchive::new(archive, index);

    let r = server.get_response_from_uri("/ghost").expect("index hit");
    assert_eq!(r.status, 404);
    assert_eq!(r.body, missing_file_response().body);
    assert_ne!(r.body, not_found_response().body);
}

#[test]
fn distinct_members_extract_uncorrupted() {
    let first = b"<html>first page</html>".to_vec();
    let second = vec![0u8, 155, 7, 42, 0, 255, 1];
    let archive = in_memory_archive(&[
        ("files/first.html", first.as_slice()),
        ("files/second.bin", second.as_slice()),
    ]);
    let index = ArchiveSitemap::build(vec![
        (
            "/first".to_owned(),
            site_entry(200, Some("/elsewhere"), Some("text/html"), "first.html"),
        ),
        (
            "/second".to_owned(),
            site_entry(200, None, Some("application/octet-stream"), "second.bin"),
        ),
    ]);
    let mut server = StaticZipArchive::new(archive, index);

    let a = server.get_response_from_uri("/first").unwrap();
    let b = server.get_response_from_uri("/second").unwrap();
    let a_again = server.get_response_from_uri("/first").unwrap();
    assert_eq!(a.body, first);
    assert_eq!(b.body, second);
    assert_eq!(a_again.body, first);
}

#[test]
fn override_takes_priority_over_index_entry() {
    let archive = in_memory_archive(&[("files/b.html", b"indexed bytes")]);
    let index = ArchiveSitemap::build(vec![(
        "/a/b.html".to_owned(),
        site_entry(200, None, Some("text/html"), "b.html"),
    )]);
    let mut server = StaticZipArchive::new(archive, index);

    let outcome = OverrideOutcome::Found {
        body: b"override bytes".to_vec(),
        content_type: Some("text/html".to_owned()),
    };
    let r = resolve_request(outcome, &mut server, "/a/b.html");
    assert_eq!(r.status, 200);
    assert_eq!(r.body, b"override bytes".to_vec());
    assert_eq!(r.content_type.as_deref(), Some("text/html"));
    assert_eq!(r.location, None);
}

#[test]
fn index_miss_resolves_to_not_found_fallback() {
    let archive = in_memory_archive(&[("files/a.html", b"a")]);
    let index = ArchiveSitemap::build(vec![(
        "/a".to_owned(),
        site_entry(200, None, Some("text/html"), "a.html"),
    )]);
    let mut server = StaticZipArchive::new(archive, index);

    let r = resolve_request(OverrideOutcome::Absent, &mut server, "/missing");
    assert_eq!(r.status, 404);
    assert_eq!(r.body, not_found_response().body);
    assert_ne!(r.body, missing_file_response().body);
}

#[test]
fn unreadable_override_resolves_to_fixed_500() {
    let archive = in_memory_archive(&[("files/a.html", b"a")]);
    let index = ArchiveSitemap::build(vec![(
        "/a".to_owned(),
        site_entry(200, None, Some("text/html"), "a.html"),
    )]);
    let mut server = StaticZipArchive::new(archive, index);

    let r = resolve_request(OverrideOutcome::ReadFailed, &mut server, "/a");
    assert_eq!(r.status, 500);
    assert_eq!(
        r.body,
        b"<html><body><h1>500 - Failed to read file</h1></body></html>".to_vec()
    );
}

#[test]
fn index_hit_resolves_through_the_archive() {
    let archive = in_memory_archive(&[("files/a.html", b"hello from the archive")]);
    let index = ArchiveSitemap::build(vec![(
        "/a".to_owned(),
        site_entry(200, None, Some("text/html"), "a.html"),
    )]);
    let mut server = StaticZipArchive::new(archive, index);

    let r = resolve_request(OverrideOutcome::Absent, &mut server, "/a");
    assert_eq!(r.status, 200);
    assert_eq!(r.content_type.as_deref(), Some("text/html"));
    assert_eq!(r.body, b"hello from the archive".to_vec());
}
