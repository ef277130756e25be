//! Resource naming, archive naming, and routing.

use roof::naming::archive_path;
use roof::naming::last_segment_of;
use roof::naming::make_file_name;
use roof::router::Method;
use roof::router::RouteKind;
use roof::router::route;

fn bytes(s: &str) -> Vec<u8> {
    s.as_bytes().to_vec()
}

#[test]
fn file_name_is_last_segment() {
    assert_eq!(make_file_name(&bytes("dir/sub/archive.bin")), bytes("archive.bin"));
    assert_eq!(make_file_name(&bytes("plain.txt")), bytes("plain.txt"));
}

#[test]
fn file_name_replaces_whitespace() {
    assert_eq!(make_file_name(&bytes("dir/my file.txt")), bytes("my_file.txt"));
    assert_eq!(make_file_name(&bytes("a b\tc.d")), bytes("a_b_c.d"));
}

#[test]
fn file_name_replaces_unicode_whitespace() {
    // Every Unicode White_Space character becomes one underscore,
    // whatever the width of its encoding.
    assert_eq!(make_file_name(&bytes("dir/a\u{000B}b.txt")), bytes("a_b.txt"));
    assert_eq!(make_file_name(&bytes("my\u{0085}file")), bytes("my_file"));
    assert_eq!(make_file_name(&bytes("my\u{00A0}file")), bytes("my_file"));
    assert_eq!(make_file_name(&bytes("a\u{1680}b")), bytes("a_b"));
    assert_eq!(make_file_name(&bytes("a\u{2003}b")), bytes("a_b"));
    assert_eq!(make_file_name(&bytes("a\u{2028}b")), bytes("a_b"));
    assert_eq!(make_file_name(&bytes("a\u{202F}b")), bytes("a_b"));
    assert_eq!(make_file_name(&bytes("a\u{205F}b")), bytes("a_b"));
    assert_eq!(make_file_name(&bytes("a\u{3000}b")), bytes("a_b"));
    // A zero-width space is not whitespace and stays.
    assert_eq!(make_file_name(&bytes("a\u{200B}b")), bytes("a\u{200B}b"));
}

#[test]
fn last_segment_of_handles_edges() {
    assert_eq!(last_segment_of(&bytes("a/b/c")), bytes("c"));
    assert_eq!(last_segment_of(&bytes("trailing/")), bytes(""));
    assert_eq!(last_segment_of(&bytes("nosir")), bytes("nosir"));
    assert_eq!(last_segment_of(&bytes("")), bytes(""));
}

#[test]
fn archive_path_appends_suffix() {
    assert_eq!(archive_path(&bytes("foo/bar")), bytes("foo/bar.tar.gz"));
    assert_eq!(archive_path(&bytes("bar")), bytes("bar.tar.gz"));
}

#[test]
fn archive_path_replaces_extension() {
    assert_eq!(archive_path(&bytes("foo/bar.old")), bytes("foo/bar.tar.gz"));
    assert_eq!(archive_path(&bytes("a.b/c.d.e")), bytes("a.b/c.d.tar.gz"));
    // A name that is nothing but a dotted opening has no extension.
    assert_eq!(archive_path(&bytes("foo/.hidden")), bytes("foo/.hidden.tar.gz"));
}

#[test]
fn archived_directory_served_under_archive_name() {
    // The resource name served for a directory equals the file name the
    // archiver derives for it, whitespace sanitized.
    let dir = bytes("data/my photos");
    let tarball = archive_path(&dir);
    assert_eq!(tarball, bytes("data/my photos.tar.gz"));
    assert_eq!(make_file_name(&tarball), bytes("my_photos.tar.gz"));
}

#[test]
fn route_serves_exact_get_only() {
    let name = bytes("archive.tar.gz");
    assert_eq!(route(Method::Get, &bytes("/archive.tar.gz"), &name), RouteKind::Serve);
    // Every leading slash is stripped before matching.
    assert_eq!(route(Method::Get, &bytes("//archive.tar.gz"), &name), RouteKind::Serve);
    assert_eq!(route(Method::Get, &bytes("archive.tar.gz"), &name), RouteKind::Serve);
}

#[test]
fn route_rejects_foreign_paths_and_methods() {
    let name = bytes("archive.tar.gz");
    assert_eq!(route(Method::Get, &bytes("/other"), &name), RouteKind::NotFound);
    assert_eq!(route(Method::Get, &bytes("/"), &name), RouteKind::NotFound);
    assert_eq!(route(Method::Get, &bytes("/archive.tar.gz/"), &name), RouteKind::NotFound);
    assert_eq!(route(Method::Get, &bytes("/archive.tar.gz2"), &name), RouteKind::NotFound);
    assert_eq!(route(Method::Other, &bytes("/archive.tar.gz"), &name), RouteKind::NotFound);
}
