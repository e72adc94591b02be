//! The decisions of a file download: whether a cached copy can be kept, how
//! a finished transfer is checked, and when and after how long a failed
//! one is retried.

use vstd::prelude::*;
use crate::digest::{hex_lower, sha1_digest, sha1_matches};
use crate::text::str_eq;

verus! {

/// A file to download: where from, what it should be, and where it goes
/// (relative to the game directory).
#[derive(Debug, Clone, PartialEq)]
pub struct DownloadObject {
    pub url: String,
    /// The expected size in bytes.
    pub size: Option<u64>,
    /// The expected SHA-1 digest, in lowercase hexadecimal.
    pub sha1: Option<String>,
    pub file_path: String,
}

/// What to do with a file already at the download's place.
#[derive(Debug, Clone, Copy, PartialEq, Eq, Structural)]
pub enum CachedCopy {
    /// Download it again.
    Stale,
    /// Keep it.
    Valid,
    /// Keep it if its contents have the expected digest.
    CheckDigest,
}

/// How many times a download is tried in all.
pub const MAX_ATTEMPTS: u32 = 5;

/// What went wrong in an attempt.
#[derive(Debug, Clone, Copy, PartialEq, Eq, Structural)]
pub enum FailureKind {
    /// A failure that is not an HTTP client error (such as a write error).
    Other,
    /// An HTTP client error, with the response status if there was one, and
    /// whether the request could not even be built.
    Request { status: Option<u16>, is_builder: bool },
}

/// What to do after an attempt.
#[derive(Debug, Clone, Copy, PartialEq, Eq, Structural)]
pub enum NextStep {
    /// Give up with the attempt's error.
    GiveUp,
    /// Try again after this many milliseconds.
    RetryAfter(u64),
}

/// The fate of a file already at the download's place, given its length
/// (`None` when there is none): it is kept when the expected size is known
/// and matches and there is no expected digest; its digest is checked when
/// the size matches and there is one; it is downloaded again otherwise.
pub open spec fn cached_copy_of(size: Option<u64>, has_sha1: bool, existing_len: Option<u64>) -> CachedCopy {
    match (existing_len, size) {
        (Some(len), Some(s)) if len == s => if has_sha1 {
            CachedCopy::CheckDigest
        } else {
            CachedCopy::Valid
        },
        _ => CachedCopy::Stale,
    }
}

/// The delay before attempt `attempt + 1` in milliseconds: 500 ms doubled
/// for each earlier failure, at most 8 s.
pub open spec fn retry_delay_of(attempt: u32) -> u64 {
    if attempt >= 5 {
        8000
    } else if attempt == 4 {
        4000
    } else if attempt == 3 {
        2000
    } else if attempt == 2 {
        1000
    } else {
        500
    }
}

/// A failure is worth retrying: any failure that is not an HTTP client
/// error; for those, one without a response unless the request could not
/// be built, and one with a server error (5xx) or `429 Too Many Requests`.
pub open spec fn retryable(kind: FailureKind) -> bool {
    match kind {
        FailureKind::Other => true,
        FailureKind::Request { status, is_builder } => match status {
            None => !is_builder,
            Some(s) => (500 <= s && s <= 599) || s == 429,
        },
    }
}

/// What follows failed attempt number `attempt` (counting from 1).
pub open spec fn next_step_of(attempt: u32, kind: FailureKind) -> NextStep {
    if attempt >= MAX_ATTEMPTS || !retryable(kind) {
        NextStep::GiveUp
    } else {
        NextStep::RetryAfter(retry_delay_of(attempt))
    }
}

impl DownloadObject {
    /// The fate of a file already at the download's place, given its length
    /// (`None` when there is none).
    pub fn cached_copy(&self, existing_len: Option<u64>) -> (res: CachedCopy)
        ensures
            res == cached_copy_of(self.size, self.sha1 is Some, existing_len),
    {
        match (existing_len, self.size) {
            (Some(len), Some(s)) => if len == s {
                if self.sha1.is_some() {
                    CachedCopy::CheckDigest
                } else {
                    CachedCopy::Valid
                }
            } else {
                CachedCopy::Stale
            },
            _ => CachedCopy::Stale,
        }
    }

    /// A file with these contents has the expected digest (or none is expected).
    pub fn contents_match(&self, contents: &[u8]) -> (res: bool)
        ensures
            res == match self.sha1 {
                Some(h) => h@ == hex_lower(sha1_digest(contents@)),
                None => true,
            },
    {
        match &self.sha1 {
            Some(h) => sha1_matches(h.as_str(), contents),
            None => true,
        }
    }

    /// Checks a finished transfer of `downloaded_bytes` bytes whose SHA-1
    /// digest is `digest_hex`: the size is checked first, then the digest.
    pub fn check_transfer(&self, downloaded_bytes: u64, digest_hex: &str) -> (res: Result<(), String>)
        ensures
            res is Ok <==> (self.size matches Some(s) ==> s == downloaded_bytes) && (
            self.sha1 matches Some(h) ==> h@ == digest_hex@),
            res matches Err(m) ==> (if self.size matches Some(s) && s != downloaded_bytes {
                m@ == "size mismatch"@
            } else {
                m@ == "sha1 mismatch"@
            }),
    {
        if let Some(s) = self.size {
            if downloaded_bytes != s {
                return Err("size mismatch".to_owned());
            }
        }
        if let Some(h) = &self.sha1 {
            if !str_eq(digest_hex, h.as_str()) {
                return Err("sha1 mismatch".to_owned());
            }
        }
        Ok(())
    }
}

/// The delay before the next attempt after failed attempt `attempt`.
pub fn retry_delay_ms(attempt: u32) -> (res: u64)
    requires
        attempt >= 1,
    ensures
        res == retry_delay_of(attempt),
{
    let mut delay: u64 = 500;
    let mut k: u32 = 1;
    while k < attempt && delay < 8000
        invariant
            1 <= k <= attempt,
            k <= 5,
            delay == retry_delay_of(k),
        decreases attempt - k,
    {
        delay = delay * 2;
        k = k + 1;
    }
    delay
}

/// A failure is worth retrying.
pub fn is_retryable(kind: FailureKind) -> (res: bool)
    ensures
        res == retryable(kind),
{
    match kind {
        FailureKind::Other => true,
        FailureKind::Request { status, is_builder } => match status {
            None => !is_builder,
            Some(s) => (500 <= s && s <= 599) || s == 429,
        },
    }
}

/// What follows failed attempt number `attempt` (counting from 1).
pub fn next_step(attempt: u32, kind: FailureKind) -> (res: NextStep)
    requires
        attempt >= 1,
    ensures
        res == next_step_of(attempt, kind),
{
    if attempt >= MAX_ATTEMPTS || !is_retryable(kind) {
        NextStep::GiveUp
    } else {
        NextStep::RetryAfter(retry_delay_ms(attempt))
    }
}

/// Progress to report after `downloaded` bytes of a transfer of which
/// `reported` were reported already: the new bytes, and the new count of
/// reported bytes.  Bytes seen again in a retried attempt are not reported twice.
pub fn unreported_bytes(reported: u64, downloaded: u64) -> (res: (u64, u64))
    ensures
        downloaded > reported ==> res.0 == downloaded - reported && res.1 == downloaded,
        downloaded <= reported ==> res == (0u64, reported),
{
    if downloaded > reported {
        (downloaded - reported, downloaded)
    } else {
        (0, reported)
    }
}

/// Where a transfer resumes, given the length of the partial file an
/// interrupted transfer left (`None` when there is none): after its bytes
/// when it is shorter than the expected size, or when no size is expected;
/// from the start otherwise.
pub open spec fn resume_offset_of(size: Option<u64>, part_len: Option<u64>) -> u64 {
    match part_len {
        Some(k) => match size {
            Some(s) => if k < s {
                k
            } else {
                0
            },
            None => k,
        },
        None => 0,
    }
}

impl DownloadObject {
    /// Where the transfer of this download resumes, given the length of
    /// its partial file.  The bytes before the offset are kept; only those
    /// after it are requested.
    pub fn resume_offset(&self, part_len: Option<u64>) -> (res: u64)
        ensures
            res == resume_offset_of(self.size, part_len),
    {
        match part_len {
            Some(k) => match self.size {
                Some(s) => if k < s {
                    k
                } else {
                    0
                },
                None => k,
            },
            None => 0,
        }
    }
}

/// Where a response body goes in the partial file, for a request from
/// `requested`: after the kept bytes when the server sent just that range
/// (status 206, Partial Content); at the start, replacing them, when it
/// sent the whole file.
pub open spec fn body_offset_of(requested: u64, status: u16) -> u64 {
    if status == 206 {
        requested
    } else {
        0
    }
}

/// Where a response body with HTTP status `status` goes in the partial file.
pub fn body_offset(requested: u64, status: u16) -> (res: u64)
    ensures
        res == body_offset_of(requested, status),
{
    if status == 206 {
        requested
    } else {
        0
    }
}

/// A failed attempt leaves its partial file for the next one to resume
/// when the transfer itself broke off in a way worth retrying (a request
/// or transfer error without a client-error status).  Other failures (a
/// size or digest mismatch, a file error, a refused request) discard it.
pub open spec fn keeps_partial_of(kind: FailureKind) -> bool {
    kind is Request && retryable(kind)
}

/// A failed attempt of this kind leaves its partial file.
pub fn keeps_partial(kind: FailureKind) -> (res: bool)
    ensures
        res == keeps_partial_of(kind),
{
    match kind {
        FailureKind::Other => false,
        FailureKind::Request { .. } => is_retryable(kind),
    }
}

/// An interrupted transfer resumes after the bytes it kept, and never past
/// them: a partial file of `k` bytes, shorter than the expected size (or
/// with none expected), resumes at `k`; a resumed transfer never starts at
/// or past the expected size.
pub proof fn lemma_resume_after_kept_bytes(size: Option<u64>, k: u64)
    ensures
        (size matches Some(s) ==> k < s) ==> resume_offset_of(size, Some(k)) == k,
        resume_offset_of(size, Some(k)) <= k,
        size matches Some(s) ==> (resume_offset_of(size, Some(k)) < s || resume_offset_of(size, Some(k)) == 0),
        resume_offset_of(size, None) == 0,
{
}

/// Retries never go past the last allowed attempt, and each waits between
/// 500 ms and 8 s, no less than the one before.
pub proof fn lemma_retry_bounds(attempt: u32, kind: FailureKind)
    requires
        attempt >= 1,
    ensures
        next_step_of(attempt, kind) matches NextStep::RetryAfter(d) ==> attempt < MAX_ATTEMPTS
            && 500 <= d <= 8000,
        attempt >= MAX_ATTEMPTS ==> next_step_of(attempt, kind) == NextStep::GiveUp,
        retry_delay_of(attempt) <= retry_delay_of((attempt + 1) as u32) || attempt == u32::MAX,
{
}

} // verus!
