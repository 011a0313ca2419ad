//! Byte accounting for a streamed download with a declared content length.
//! Each received chunk advances a counter; once the stream ends, the artifact
//! is usable only when the counter matches the declared length exactly, so a
//! truncated or overlong stream is never handed to extraction.

use vstd::prelude::*;

verus! {

/// Failure modes of a download, tagged by the operation that failed.
#[derive(Clone, Copy, Debug, PartialEq, Eq, Structural)]
pub enum DownloadError {
    /// The request itself could not be sent or answered.
    Request,
    /// The response carried no content length.
    MissingLength,
    /// Reading a chunk from the stream failed.
    StreamRead,
    /// Writing a chunk to the scratch file failed.
    FileWrite,
    /// The stream ended short of the declared length.
    Truncated,
    /// The stream delivered more bytes than the declared length.
    Overrun,
}

impl DownloadError {
    /// A human-readable description of the failure.
    pub fn message(&self) -> (r: &'static str)
        ensures
            self is Request ==> r@ == "Failed to GET"@,
            self is MissingLength ==> r@ == "Failed to get content length"@,
            self is StreamRead ==> r@ == "Error while downloading file"@,
            self is FileWrite ==> r@ == "Error while writing to file"@,
            self is Truncated ==> r@ == "Download ended before the declared length"@,
            self is Overrun ==> r@ == "Download exceeded the declared length"@,
    {
        match self {
            DownloadError::Request => "Failed to GET",
            DownloadError::MissingLength => "Failed to get content length",
            DownloadError::StreamRead => "Error while downloading file",
            DownloadError::FileWrite => "Error while writing to file",
            DownloadError::Truncated => "Download ended before the declared length",
            DownloadError::Overrun => "Download exceeded the declared length",
        }
    }
}

/// Progress of one streamed download against its declared total size.
pub struct DownloadTracker {
    /// Declared content length in bytes.
    pub total: u64,
    /// Bytes accounted so far, never beyond `total`.
    pub received: u64,
    /// Whether the stream ever delivered bytes beyond `total`.
    pub overrun: bool,
}

impl DownloadTracker {
    /// The tracker's internal consistency: the position never passes the
    /// declared total.
    pub open spec fn wf(&self) -> bool {
        self.received <= self.total
    }

    /// Start tracking a download of `total` declared bytes.
    pub fn new(total: u64) -> (r: DownloadTracker)
        ensures
            r.wf(),
            r.total == total,
            r.received == 0,
            !r.overrun,
    {
        DownloadTracker { total, received: 0, overrun: false }
    }

    /// Account one received chunk of `len` bytes.  The position saturates at
    /// the declared total; going past it is recorded as an overrun.
    pub fn on_chunk(&mut self, len: u64)
        ensures
            final(self).wf(),
            final(self).total == old(self).total,
            old(self).wf() && len <= old(self).total - old(self).received ==> final(self).received
                == old(self).received + len && final(self).overrun == old(self).overrun,
            old(self).wf() && len > old(self).total - old(self).received ==> final(self).received
                == old(self).total && final(self).overrun,
    {
        if self.received <= self.total && len <= self.total - self.received {
            self.received = self.received + len;
        } else {
            self.received = self.total;
            self.overrun = true;
        }
    }

    /// The clamped position, suitable for a progress display.
    pub fn position(&self) -> (r: u64)
        ensures
            r == self.received,
    {
        self.received
    }

    /// Judge the finished stream: the artifact is complete if and only if
    /// exactly the declared number of bytes arrived.
    pub fn finish(&self) -> (r: Result<(), DownloadError>)
        ensures
            r is Ok <==> self.received == self.total && !self.overrun,
            r matches Err(e) ==> (e is Overrun <==> self.overrun || self.received > self.total)
                && (e is Truncated <==> !self.overrun && self.received < self.total),
    {
        if self.overrun || self.received > self.total {
            Err(DownloadError::Overrun)
        } else if self.received < self.total {
            Err(DownloadError::Truncated)
        } else {
            Ok(())
        }
    }
}

/// A short stream is rejected: whenever fewer bytes arrived than the
/// declared content length announced, the finished download is not complete,
/// so extraction is never attempted on a truncated artifact.
pub proof fn lemma_truncated_download_rejected(t: DownloadTracker)
    requires
        t.wf(),
        t.received < t.total,
    ensures
        !(t.received == t.total && !t.overrun),
{
}

} // verus!
