//! The download job: fetching one remote file to disk.
//!
//! The URL must be well-formed; the destination file name is the final
//! segment of the URL's path and must not already exist — both are
//! settled before any request leaves the machine.  While the body
//! streams in, the job counts the bytes written chunk by chunk against
//! the size the remote side declared (zero when it declared none, in
//! which case progress is an open-ended byte count).

use vstd::prelude::*;

use crate::naming::last_segment;
use crate::naming::last_segment_of;

verus! {

/// Whether `url::Url::parse` accepts a string; a function of its
/// characters alone.
pub uninterp spec fn url_accepts(s: Seq<char>) -> bool;

/// The path component of the URL a string parses into, as bytes; a
/// function of the characters alone.
pub uninterp spec fn url_path_bytes(s: Seq<char>) -> Seq<u8>;

/// Relies on url::Url::parse and url::Url::path: a string either parses
/// into a URL or does not, and on success the URL carries a
/// percent-encoded ASCII path — both functions of the input characters
/// alone.
#[verifier::external_body]
fn parse_url_path(url: &str) -> (r: Option<Vec<u8>>)
    ensures
        r is Some <==> url_accepts(url@),
        r matches Some(p) ==> p@ == url_path_bytes(url@),
{
    match url::Url::parse(url) {
        Ok(parsed) => Some(parsed.path().as_bytes().to_vec()),
        Err(_) => None,
    }
}

/// Whether a string is a well-formed URL.
pub fn url_is_valid(url: &str) -> (r: bool)
    ensures
        r <==> url_accepts(url@),
{
    parse_url_path(url).is_some()
}

/// Why a download was not run, or broke off.
#[derive(PartialEq, Eq, Structural, Clone, Copy, Debug)]
pub enum DownloadError {
    /// The URL did not parse.
    InvalidUrl,
    /// A file under the derived destination name already exists.
    DestinationExists,
    /// The remote side did not answer with success.
    RemoteFailure,
}

/// The destination file name a URL downloads to: the final segment of
/// its path.  Fails exactly when the URL does not parse.
pub fn destination_name(url: &str) -> (r: Result<Vec<u8>, DownloadError>)
    ensures
        r is Ok <==> url_accepts(url@),
        r matches Ok(name) ==> name@ == last_segment(url_path_bytes(url@)),
        r matches Err(e) ==> e == DownloadError::InvalidUrl,
{
    match parse_url_path(url) {
        Some(path) => Ok(last_segment_of(&path)),
        None => Err(DownloadError::InvalidUrl),
    }
}

/// The sum of a sequence of chunk lengths.
pub open spec fn sum_of(chunks: Seq<int>) -> int
    decreases chunks.len(),
{
    if chunks.len() == 0 {
        0
    } else {
        sum_of(chunks.drop_last()) + chunks.last()
    }
}

/// One download in progress: the destination name, the size the remote
/// side declared (zero when it declared none), the bytes written so
/// far, and — as ghost history — every chunk length recorded.
pub struct DownloadJob {
    destination: Vec<u8>,
    expected_size: u64,
    bytes_written: u64,
    chunks: Ghost<Seq<int>>,
}

impl DownloadJob {
    /// The destination file name.
    pub closed spec fn spec_destination(self) -> Seq<u8> {
        self.destination@
    }

    /// The size the remote side declared, zero if none.
    pub closed spec fn spec_expected_size(self) -> int {
        self.expected_size as int
    }

    /// The bytes written so far.
    pub closed spec fn spec_bytes_written(self) -> int {
        self.bytes_written as int
    }

    /// The lengths of the chunks received so far, oldest first.
    pub closed spec fn spec_chunks(self) -> Seq<int> {
        self.chunks@
    }

    /// The job invariant: the byte count is exactly the sum of the
    /// recorded chunks.
    pub closed spec fn wf(self) -> bool {
        self.spec_bytes_written() == sum_of(self.spec_chunks())
    }

    /// Open a job for a derived destination name, refusing to overwrite:
    /// it fails exactly when a file of that name already exists, before
    /// anything is written and before any request is made — the decision
    /// consults nothing from the network.
    pub fn plan(destination: Vec<u8>, destination_exists: bool) -> (r: Result<
        DownloadJob,
        DownloadError,
    >)
        ensures
            r is Ok <==> !destination_exists,
            r matches Ok(job) ==> {
                &&& job.wf()
                &&& job.spec_destination() == destination@
                &&& job.spec_expected_size() == 0
                &&& job.spec_bytes_written() == 0
                &&& job.spec_chunks() == Seq::<int>::empty()
            },
            r matches Err(e) ==> e == DownloadError::DestinationExists,
    {
        if destination_exists {
            Err(DownloadError::DestinationExists)
        } else {
            Ok(
                DownloadJob {
                    destination,
                    expected_size: 0,
                    bytes_written: 0,
                    chunks: Ghost(Seq::empty()),
                },
            )
        }
    }

    /// Take the remote side's answer: a non-success status fails the
    /// download; on success the declared size is kept, zero when the
    /// size header was absent, and progress is then an open-ended byte
    /// count.
    pub fn begin(&mut self, remote_success: bool, declared_size: Option<u64>) -> (r: Result<
        (),
        DownloadError,
    >)
        requires
            old(self).wf(),
        ensures
            final(self).wf(),
            r is Ok <==> remote_success,
            r matches Err(e) ==> e == DownloadError::RemoteFailure,
            !remote_success ==> *final(self) == *old(self),
            remote_success ==> final(self).spec_expected_size() == (match declared_size {
                Some(size) => size as int,
                None => 0,
            }),
            final(self).spec_destination() == old(self).spec_destination(),
            final(self).spec_bytes_written() == old(self).spec_bytes_written(),
            final(self).spec_chunks() == old(self).spec_chunks(),
    {
        if !remote_success {
            return Err(DownloadError::RemoteFailure);
        }
        self.expected_size = match declared_size {
            Some(size) => size,
            None => 0,
        };
        Ok(())
    }

    /// Record one chunk written to the destination: the byte count grows
    /// by exactly the chunk's length.
    pub fn record_chunk(&mut self, length: u64)
        requires
            old(self).wf(),
            old(self).spec_bytes_written() + length <= u64::MAX,
        ensures
            final(self).wf(),
            final(self).spec_bytes_written() == old(self).spec_bytes_written() + length,
            final(self).spec_chunks() == old(self).spec_chunks().push(length as int),
            final(self).spec_destination() == old(self).spec_destination(),
            final(self).spec_expected_size() == old(self).spec_expected_size(),
    {
        proof {
            let pushed = self.chunks@.push(length as int);
            assert(pushed.drop_last() =~= self.chunks@);
        }
        self.bytes_written = self.bytes_written + length;
        self.chunks = Ghost(self.chunks@.push(length as int));
    }

    /// The destination file name.
    pub fn destination(&self) -> (r: &Vec<u8>)
        ensures
            r@ == self.spec_destination(),
    {
        &self.destination
    }

    /// The size the remote side declared, zero if none.
    pub fn expected_size(&self) -> (r: u64)
        ensures
            r as int == self.spec_expected_size(),
    {
        self.expected_size
    }

    /// The bytes written so far.
    pub fn bytes_written(&self) -> (r: u64)
        ensures
            r as int == self.spec_bytes_written(),
    {
        self.bytes_written
    }
}

/// At every point of a download — and so at its end — the destination's
/// byte count is exactly the sum of the chunks received, however many
/// arrived and whatever their sizes; with no declared size this running
/// count is the whole of the progress report.
pub proof fn lemma_written_is_chunk_sum(job: DownloadJob)
    requires
        job.wf(),
    ensures
        job.spec_bytes_written() == sum_of(job.spec_chunks()),
{
}

} // verus!
