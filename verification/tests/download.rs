//! The download path: destination naming, the overwrite refusal, and
//! chunk accounting.

use roof::Action;
use roof::dispatch;
use roof::download::DownloadError;
use roof::download::DownloadJob;
use roof::download::destination_name;
use roof::download::url_is_valid;

fn bytes(s: &str) -> Vec<u8> {
    s.as_bytes().to_vec()
}

#[test]
fn destination_is_last_path_segment() {
    let name = destination_name("http://h.example/a/b/file.bin").unwrap();
    assert_eq!(name, bytes("file.bin"));
}

#[test]
fn destination_ignores_query_and_fragment() {
    // Were the URL handed back unparsed, the query would leak into the
    // name.
    let name = destination_name("http://h.example/dir/file.bin?page=2#top").unwrap();
    assert_eq!(name, bytes("file.bin"));
}

#[test]
fn destination_of_bare_host_is_empty() {
    // The path of a bare host is a lone slash; its last segment is
    // empty.
    let name = destination_name("http://h.example").unwrap();
    assert_eq!(name, bytes(""));
}

#[test]
fn unparsable_url_is_refused() {
    assert_eq!(destination_name("not a url"), Err(DownloadError::InvalidUrl));
    assert!(!url_is_valid("relative/path/only"));
    assert!(url_is_valid("https://h.example/x"));
}

#[test]
fn existing_destination_refused_before_any_request() {
    let refused = DownloadJob::plan(bytes("file.bin"), true);
    assert_eq!(refused.err(), Some(DownloadError::DestinationExists));
}

#[test]
fn bytes_written_is_sum_of_chunks() {
    let mut job = DownloadJob::plan(bytes("file.bin"), false).unwrap();
    // No size header: progress is the open-ended byte count.
    job.begin(true, None).unwrap();
    assert_eq!(job.expected_size(), 0);
    assert_eq!(job.bytes_written(), 0);
    let chunks: [u64; 4] = [3, 11, 0, 7];
    for length in chunks {
        job.record_chunk(length);
    }
    assert_eq!(job.bytes_written(), 21);
}

#[test]
fn remote_failure_aborts_download() {
    let mut job = DownloadJob::plan(bytes("f"), false).unwrap();
    assert_eq!(job.begin(false, Some(5)), Err(DownloadError::RemoteFailure));
    // A success answer with a size header fixes the expected total.
    let mut job = DownloadJob::plan(bytes("f"), false).unwrap();
    assert_eq!(job.begin(true, Some(5)), Ok(()));
    assert_eq!(job.expected_size(), 5);
}

#[test]
fn dispatch_prefers_local_target() {
    assert_eq!(dispatch("whatever", true), Action::ServeLocal);
    assert_eq!(dispatch("http://h.example/f", false), Action::FetchRemote);
    assert_eq!(dispatch("no-such-file", false), Action::Unusable);
}
