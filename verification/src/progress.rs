//! Install progress: bytes and files done out of the totals.

use vstd::prelude::*;

verus! {

/// A snapshot of install progress, as it is reported.
#[derive(Debug, Clone, Copy, PartialEq, Eq, Structural)]
pub struct ProgressPayload {
    pub downloaded_bytes: u64,
    pub total_bytes: u64,
    pub files_done: u64,
    pub files_total: u64,
}

/// Install progress.
#[derive(Debug)]
pub struct Progress {
    downloaded_bytes: u64,
    files_done: u64,
    total_bytes: u64,
    files_total: u64,
}

impl View for Progress {
    type V = ProgressPayload;

    closed spec fn view(&self) -> ProgressPayload {
        ProgressPayload {
            downloaded_bytes: self.downloaded_bytes,
            total_bytes: self.total_bytes,
            files_done: self.files_done,
            files_total: self.files_total,
        }
    }
}

impl Progress {
    /// Progress of an install of `files_total` files of `total_bytes` bytes,
    /// nothing done yet.
    pub fn new(total_bytes: u64, files_total: u64) -> (res: Progress)
        ensures
            res@ == (ProgressPayload { downloaded_bytes: 0, total_bytes, files_done: 0, files_total }),
    {
        Progress { downloaded_bytes: 0, files_done: 0, total_bytes, files_total }
    }

    /// The current snapshot.
    pub fn payload(&self) -> (res: ProgressPayload)
        ensures
            res == self@,
    {
        ProgressPayload {
            downloaded_bytes: self.downloaded_bytes,
            total_bytes: self.total_bytes,
            files_done: self.files_done,
            files_total: self.files_total,
        }
    }

    /// Records a finished file of `size` bytes; returns the new snapshot.
    pub fn add_file(&mut self, size: u64) -> (res: ProgressPayload)
        requires
            old(self)@.downloaded_bytes + size <= u64::MAX,
            old(self)@.files_done + 1 <= u64::MAX,
        ensures
            final(self)@ == (ProgressPayload {
                downloaded_bytes: (old(self)@.downloaded_bytes + size) as u64,
                files_done: (old(self)@.files_done + 1) as u64,
                ..old(self)@
            }),
            res == final(self)@,
    {
        self.downloaded_bytes = self.downloaded_bytes + size;
        self.files_done = self.files_done + 1;
        self.payload()
    }

    /// Records `n` more downloaded bytes of the current file; returns the new snapshot.
    pub fn add_bytes(&mut self, n: u64) -> (res: ProgressPayload)
        requires
            old(self)@.downloaded_bytes + n <= u64::MAX,
        ensures
            final(self)@ == (ProgressPayload {
                downloaded_bytes: (old(self)@.downloaded_bytes + n) as u64,
                ..old(self)@
            }),
            res == final(self)@,
    {
        self.downloaded_bytes = self.downloaded_bytes + n;
        self.payload()
    }

    /// Records that the current file is done; returns the new snapshot.
    pub fn finish_file(&mut self) -> (res: ProgressPayload)
        requires
            old(self)@.files_done + 1 <= u64::MAX,
        ensures
            final(self)@ == (ProgressPayload { files_done: (old(self)@.files_done + 1) as u64, ..old(self)@ }),
            res == final(self)@,
    {
        self.files_done = self.files_done + 1;
        self.payload()
    }
}

} // verus!
