use git_sql::client::GitSqlClient;
use git_sql::object::ObjectKind;
use git_sql::error::Error;
use git_sql::server::{
    content_answer, download_answer, download_response, index_path_of, join_hash, listing_answer,
    refs_listing, unknown_repository, Body, ContentType, GitSqlServer, Response,
};
use std::io::Read;

fn s(text: &str) -> String {
    String::from(text)
}

fn text_of(response: &Response) -> String {
    match &response.body {
        Body::Text(text) => text.clone(),
        Body::Bytes(_) => panic!("a text body was expected"),
    }
}

fn bytes_of(response: &Response) -> Vec<u8> {
    match &response.body {
        Body::Bytes(bytes) => bytes.clone(),
        Body::Text(_) => panic!("a byte body was expected"),
    }
}

fn server() -> GitSqlServer {
    let mut c = GitSqlClient::new(s("db"));
    c.insert_object(&s("32f95c0d1244a78b2be1bab8de17906fabb2c4a8"), &ObjectKind::Blob, 2, b"hi").unwrap();
    c.insert_object(&s("t1"), &ObjectKind::Tree, 0, b"").unwrap();
    c.insert_object(&s("t2"), &ObjectKind::Tree, 0, b"").unwrap();
    c.insert_object(&s("page"), &ObjectKind::Blob, 6, b"<html>").unwrap();
    c.set_ref(&s("HEAD"), &s("refs/heads/main")).unwrap();
    c.set_ref(&s("refs/heads/main"), &s("c1")).unwrap();
    c.link_path(s("c1"), s("docs"), s("t1"));
    c.link_path(s("c1"), s("site"), s("t2"));
    c.link_path(s("c1"), s("site/index.html"), s("page"));
    c.link_path(s("c1"), s("nested"), s("t1"));
    c.link_path(s("c1"), s("nested/index.html"), s("t2"));
    c.link_path(s("c1"), s("a.txt"), s("32f95c0d1244a78b2be1bab8de17906fabb2c4a8"));
    let mut server = GitSqlServer::new();
    server.mount(s("repo"), c);
    server
}

#[test]
fn unknown_repository_is_a_bad_request() {
    let server = server();
    for response in [
        server.download_object(&s("none"), &s("00")),
        server.list_refs(&s("none")),
        server.fetch_content_of(&s("none"), &s("00")),
        server.view_content_of(&s("none"), &s("a.txt"), &s("HEAD"), false),
    ] {
        assert_eq!(response.status, 400);
        assert_eq!(text_of(&response), "Unknown Repository.");
    }
}

#[test]
fn download_is_the_compressed_encoding() {
    let server = server();
    let hash = join_hash("32", "f95c0d1244a78b2be1bab8de17906fabb2c4a8");
    let response = server.download_object(&s("repo"), &hash);
    assert_eq!(response.status, 200);
    assert_eq!(response.content_type, ContentType::OctetStream);
    assert_eq!(response.content_type.mime(), "application/octet-stream");
    let compressed = bytes_of(&response);
    assert_ne!(compressed, b"blob 2\0hi".to_vec());
    let mut raw = Vec::new();
    flate2::read::ZlibDecoder::new(compressed.as_slice()).read_to_end(&mut raw).unwrap();
    assert_eq!(raw, b"blob 2\0hi".to_vec());
}

#[test]
fn download_of_an_unknown_object_is_a_bad_request() {
    let response = server().download_object(&s("repo"), &s("00"));
    assert_eq!(response.status, 400);
    assert_eq!(text_of(&response), "Object not found.");
}

#[test]
fn download_without_compressed_bytes_is_an_internal_error() {
    let response = download_response(None);
    assert_eq!(response.status, 500);
    let response = download_response(Some(vec![1, 2]));
    assert_eq!(response.status, 200);
    assert_eq!(bytes_of(&response), vec![1, 2]);
}

#[test]
fn join_hash_reassembles_the_identifier() {
    assert_eq!(join_hash("ab", "cdef"), "abcdef");
}

#[test]
fn refs_listing_format() {
    let refs = vec![(s("HEAD"), s("aa")), (s("refs/heads/main"), s("aa"))];
    assert_eq!(refs_listing(&refs), "aa\tHEAD\naa\trefs/heads/main\n");
    assert_eq!(refs_listing(&Vec::new()), "");
}

#[test]
fn refs_are_listed_with_their_resolved_targets() {
    let response = server().list_refs(&s("repo"));
    assert_eq!(response.status, 200);
    let text = text_of(&response);
    let mut lines: Vec<&str> = text.lines().collect();
    lines.sort();
    assert_eq!(lines, vec!["c1\tHEAD", "c1\trefs/heads/main"]);
}

#[test]
fn blob_content_is_returned_as_it_is() {
    let server = server();
    let response = server.fetch_content_of(&s("repo"), &s("32f95c0d1244a78b2be1bab8de17906fabb2c4a8"));
    assert_eq!(response.status, 200);
    assert_eq!(bytes_of(&response), b"hi".to_vec());
    assert_eq!(server.fetch_content_of(&s("repo"), &s("00")).status, 400);
}

#[test]
fn view_of_a_file() {
    let response = server().view_content_of(&s("repo"), &s("a.txt"), &s("HEAD"), false);
    assert_eq!(response.status, 200);
    assert_eq!(bytes_of(&response), b"hi".to_vec());
}

#[test]
fn view_of_a_directory_shows_its_index_file() {
    let server = server();
    for path in ["site", "site/"] {
        let response = server.view_content_of(&s("repo"), &s(path), &s("HEAD"), false);
        assert_eq!(response.status, if path == "site" { 200 } else { 404 });
    }
    let response = server.view_content_of(&s("repo"), &s("site"), &s("refs/heads/main"), false);
    assert_eq!(bytes_of(&response), b"<html>".to_vec());
}

#[test]
fn view_of_a_directory_without_index_is_not_found() {
    let response = server().view_content_of(&s("repo"), &s("docs"), &s("HEAD"), false);
    assert_eq!(response.status, 404);
    assert_eq!(text_of(&response), "Object not found.");
}

#[test]
fn view_retries_once_only() {
    let server = server();
    let response = server.view_content_of(&s("repo"), &s("nested"), &s("HEAD"), false);
    assert_eq!(response.status, 404);
    assert_eq!(text_of(&response), "Index file not found.");
    let response = server.view_content_of(&s("repo"), &s("site"), &s("HEAD"), true);
    assert_eq!(response.status, 404);
}

#[test]
fn view_of_what_does_not_resolve_is_not_found() {
    let server = server();
    assert_eq!(server.view_content_of(&s("repo"), &s("nope"), &s("HEAD"), false).status, 404);
    assert_eq!(server.view_content_of(&s("repo"), &s("a.txt"), &s("v9"), false).status, 404);
}

#[test]
fn index_path_appends_the_index_file() {
    assert_eq!(index_path_of(&s("docs")), "docs/index.html");
    assert_eq!(index_path_of(&s("docs/")), "docs/index.html");
    assert_eq!(index_path_of(&s("")), "/index.html");
}

#[test]
fn answers_from_the_outcome_of_a_read() {
    let response = download_answer(Ok(b"blob 2\0hi".to_vec()));
    assert_eq!(response.status, 200);
    assert_eq!(response.content_type, ContentType::OctetStream);
    let mut raw = Vec::new();
    flate2::read::ZlibDecoder::new(bytes_of(&response).as_slice()).read_to_end(&mut raw).unwrap();
    assert_eq!(raw, b"blob 2\0hi".to_vec());
    assert_eq!(download_answer(Err(Error::NotFound)).status, 400);
    let response = listing_answer(Ok(vec![(s("HEAD"), s("aa"))]));
    assert_eq!((response.status, text_of(&response)), (200, s("aa\tHEAD\n")));
    let response = listing_answer(Err(Error::ConnectionFailure));
    assert_eq!((response.status, text_of(&response)), (400, s("Store unreachable.")));
    let response = content_answer(Ok((ObjectKind::Tree, vec![7])));
    assert_eq!((response.status, bytes_of(&response)), (200, vec![7]));
    assert_eq!(content_answer(Err(Error::NotFound)).status, 400);
    assert_eq!(text_of(&unknown_repository()), "Unknown Repository.");
}
