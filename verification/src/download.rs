//! The download of a model: what is done next, file by file and chunk by chunk.

use crate::chars::{cat, cat3};
use crate::models::ModelFile;
use vstd::prelude::*;
use vstd::string::*;

verus! {

/// Progress is reported each time this many bytes have come in.
pub const REPORT_BYTES: u64 = 262_144;

/// A download that is under way.
#[derive(Debug)]
pub struct Download {
    /// The file that is being looked at.
    pub file: usize,
    /// What has come in of it.
    pub received: u64,
    /// What had come in when progress was last reported.
    pub last_emit: u64,
    /// Megabytes of the files before it.
    pub downloaded_mb: u64,
}

/// What happened outside.
#[derive(Debug)]
pub enum DownloadEvent {
    /// The file is on disk already, with this many bytes.
    Present(u64),
    /// The file is not on disk.
    Missing,
    /// The server answered with success.
    Accepted,
    /// The server answered with another status.
    Refused(String),
    /// A chunk of this many bytes is there.
    Chunk(u64),
    /// The next chunk could not be read.
    Broken(String),
    /// There is no further chunk.
    Ended,
}

/// What is done next.
#[derive(Debug)]
pub enum DownloadAction {
    /// Look whether the current file is on disk.
    Check,
    /// Announce the current file and ask the server for it.
    Fetch,
    /// Read the next chunk.
    Read,
    /// Write the chunk, and report the progress where `report` is set; then read
    /// the next one.
    Write { report: bool },
    /// Put the finished file in its place; then go on.
    Publish,
    /// All files are there.
    Done,
    /// Give up, and remove what there is of the file where `remove` is set.
    Fail { message: String, remove: bool },
}

/// What an event of the current file makes of a download, and what is done next.
pub open spec fn is_step(
    before: Download,
    after: Download,
    files: Seq<ModelFile>,
    e: DownloadEvent,
    cancelled: bool,
    r: DownloadAction,
) -> bool {
    match e {
        DownloadEvent::Present(n) => {
            &&& after == (Download {
                file: (before.file + 1) as usize,
                downloaded_mb: (before.downloaded_mb + n / 1_000_000) as u64,
                ..before
            })
            &&& r == (if after.file < files.len() {
                DownloadAction::Check
            } else {
                DownloadAction::Done
            })
        },
        DownloadEvent::Missing => after == before && r == DownloadAction::Fetch,
        DownloadEvent::Accepted => {
            &&& after == (Download { received: 0, last_emit: 0, ..before })
            &&& r == DownloadAction::Read
        },
        DownloadEvent::Refused(status) => {
            &&& after == before
            &&& r matches DownloadAction::Fail { message, remove }
            &&& message@ == "download failed for "@ + files[before.file as int].name@
                + ": HTTP "@ + status@
            &&& !remove
        },
        DownloadEvent::Chunk(n) => if cancelled {
            &&& after == before
            &&& r matches DownloadAction::Fail { message, remove }
            &&& message@ == "download cancelled"@
            &&& remove
        } else {
            let received = before.received + n;
            let report = received - before.last_emit >= REPORT_BYTES;
            &&& after == (Download {
                received: received as u64,
                last_emit: if report {
                    received as u64
                } else {
                    before.last_emit
                },
                ..before
            })
            &&& r == (DownloadAction::Write { report })
        },
        DownloadEvent::Broken(why) => {
            &&& after == before
            &&& r matches DownloadAction::Fail { message, remove }
            &&& message@ == (if cancelled {
                "download cancelled"@
            } else {
                why@
            })
            &&& remove == cancelled
        },
        DownloadEvent::Ended => {
            &&& after == (Download {
                file: (before.file + 1) as usize,
                downloaded_mb: (before.downloaded_mb + before.received
                    / 1_000_000) as u64,
                ..before
            })
            &&& r == DownloadAction::Publish
        },
    }
}

impl Download {
    /// The progress that was last reported is never ahead of what came in, and
    /// never lags behind by as much as one report.
    pub open spec fn wf(self, files: Seq<ModelFile>) -> bool {
        &&& self.file <= files.len()
        &&& self.last_emit <= self.received < self.last_emit + REPORT_BYTES
    }

    /// A download that has not begun.
    pub fn new() -> (r: Self)
        ensures
            r.file == 0 && r.received == 0 && r.last_emit == 0 && r.downloaded_mb == 0,
            forall|files: Seq<ModelFile>| r.wf(files),
    {
        Download { file: 0, received: 0, last_emit: 0, downloaded_mb: 0 }
    }

    /// What is done at the start, and behind each file.
    pub fn begin(&self, files: &Vec<ModelFile>) -> (r: DownloadAction)
        ensures
            r == (if self.file < files@.len() {
                DownloadAction::Check
            } else {
                DownloadAction::Done
            }),
    {
        if self.file < files.len() {
            DownloadAction::Check
        } else {
            DownloadAction::Done
        }
    }

    /// Whether an event can be taken without a counter running over.
    pub open spec fn has_room(self, e: DownloadEvent) -> bool {
        match e {
            DownloadEvent::Present(n) => self.downloaded_mb + n / 1_000_000 <= u64::MAX,
            DownloadEvent::Chunk(n) => self.received + n <= u64::MAX,
            DownloadEvent::Ended => self.downloaded_mb + self.received / 1_000_000 <= u64::MAX,
            _ => true,
        }
    }

    /// Takes an event of the current file. A download that was cancelled ends at
    /// the next chunk, whatever became of the chunk.
    pub fn step(&mut self, files: &Vec<ModelFile>, e: DownloadEvent, cancelled: bool) -> (r:
        DownloadAction)
        requires
            old(self).wf(files@),
            old(self).file < files@.len(),
            old(self).has_room(e),
        ensures
            final(self).wf(files@),
            is_step(*old(self), *final(self), files@, e, cancelled, r),
    {
        assert(files.len() == files@.len());
        match e {
            DownloadEvent::Present(n) => {
                self.downloaded_mb = self.downloaded_mb + n / 1_000_000;
                self.file = self.file + 1;
                self.begin(files)
            },
            DownloadEvent::Missing => DownloadAction::Fetch,
            DownloadEvent::Accepted => {
                self.received = 0;
                self.last_emit = 0;
                DownloadAction::Read
            },
            DownloadEvent::Refused(status) => {
                let head = cat3(
                    "download failed for ",
                    files[self.file].name.as_str(),
                    ": HTTP ",
                );
                DownloadAction::Fail { message: cat(head.as_str(), status.as_str()), remove: false }
            },
            DownloadEvent::Chunk(n) => {
                if cancelled {
                    return DownloadAction::Fail {
                        message: "download cancelled".to_owned(),
                        remove: true,
                    };
                }
                self.received = self.received + n;
                let report = self.received - self.last_emit >= REPORT_BYTES;
                if report {
                    self.last_emit = self.received;
                }
                DownloadAction::Write { report }
            },
            DownloadEvent::Broken(why) => {
                if cancelled {
                    DownloadAction::Fail { message: "download cancelled".to_owned(), remove: true }
                } else {
                    DownloadAction::Fail { message: why, remove: false }
                }
            },
            DownloadEvent::Ended => {
                self.downloaded_mb = self.downloaded_mb + self.received / 1_000_000;
                self.file = self.file + 1;
                DownloadAction::Publish
            },
        }
    }

    /// What the user is told about the current file.
    pub fn announcement(&self, files: &Vec<ModelFile>) -> (r: String)
        requires
            self.file < files@.len(),
        ensures
            r@ == "downloading "@ + files@[self.file as int].name@ + "…"@,
    {
        cat3("downloading ", files[self.file].name.as_str(), "…")
    }
}

} // verus!
