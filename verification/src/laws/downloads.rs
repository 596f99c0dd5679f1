//! Downloads of models.

use crate::download;
use crate::download::{Download, DownloadAction, DownloadEvent};
use crate::models::ModelFile;
use vstd::prelude::*;
use vstd::string::*;

verus! {

/// A chunk is written and adds to what came in. Progress is reported once 262,144 bytes
/// have come in since the last report, and the count towards the next starts there.
pub proof fn lemma_chunk(
    before: Download,
    after: Download,
    files: Seq<ModelFile>,
    n: u64,
    r: DownloadAction,
)
    requires
        before.has_room(DownloadEvent::Chunk(n)),
        download::is_step(before, after, files, DownloadEvent::Chunk(n), false, r),
    ensures
        after.received == before.received + n,
        after.file == before.file,
        after.downloaded_mb == before.downloaded_mb,
        r is Write,
        before.received + n >= before.last_emit + 262_144 ==> r->report && after.last_emit
            == after.received,
        before.received + n < before.last_emit + 262_144 ==> !r->report && after.last_emit
            == before.last_emit,
{
}

/// A cancelled download gives up at the next chunk, whole or broken, and removes what
/// there is of the file.
pub proof fn lemma_cancelled(
    before: Download,
    after: Download,
    files: Seq<ModelFile>,
    e: DownloadEvent,
    r: DownloadAction,
)
    requires
        download::is_step(before, after, files, e, true, r),
        e is Chunk || e is Broken,
    ensures
        r matches DownloadAction::Fail { message, remove } && message@ == "download cancelled"@
            && remove,
        after == before,
{
}

/// A download that breaks on its own keeps what there is and says why.
pub proof fn lemma_broken(
    before: Download,
    after: Download,
    files: Seq<ModelFile>,
    why: String,
    r: DownloadAction,
)
    requires
        download::is_step(before, after, files, DownloadEvent::Broken(why), false, r),
    ensures
        r matches DownloadAction::Fail { message, remove } && message@ == why@ && !remove,
        after == before,
{
}

/// A file that the server refuses is named, with the status.
pub proof fn lemma_refused(
    before: Download,
    after: Download,
    files: Seq<ModelFile>,
    status: String,
    cancelled: bool,
    r: DownloadAction,
)
    requires
        download::is_step(before, after, files, DownloadEvent::Refused(status), cancelled, r),
    ensures
        r matches DownloadAction::Fail { message, remove } && message@ == "download failed for "@
            + files[before.file as int].name@ + ": HTTP "@ + status@ && !remove,
        after == before,
{
}

/// A file that is not on disk is fetched, and read from its start; one that has ended
/// is put in its place, and the next is looked at.
pub proof fn lemma_fetched(
    before: Download,
    looked: Download,
    asked: Download,
    ended: Download,
    files: Seq<ModelFile>,
    c: bool,
    fetch: DownloadAction,
    read: DownloadAction,
    publish: DownloadAction,
)
    requires
        before.file < files.len(),
        files.len() <= usize::MAX,
        asked.has_room(DownloadEvent::Ended),
        download::is_step(before, looked, files, DownloadEvent::Missing, c, fetch),
        download::is_step(looked, asked, files, DownloadEvent::Accepted, c, read),
        download::is_step(asked, ended, files, DownloadEvent::Ended, c, publish),
    ensures
        fetch is Fetch,
        read is Read,
        publish is Publish,
        looked == before,
        asked.received == 0 && asked.last_emit == 0 && asked.file == before.file,
        ended.file == before.file + 1,
        ended.downloaded_mb == before.downloaded_mb,
{
}

/// What came in counts by whole megabytes once its file has ended.
pub proof fn lemma_ended(
    before: Download,
    after: Download,
    files: Seq<ModelFile>,
    c: bool,
    r: DownloadAction,
)
    requires
        before.file < files.len(),
        files.len() <= usize::MAX,
        before.has_room(DownloadEvent::Ended),
        download::is_step(before, after, files, DownloadEvent::Ended, c, r),
    ensures
        r is Publish,
        after.file == before.file + 1,
        0 <= before.received - 1_000_000 * (after.downloaded_mb - before.downloaded_mb) < 1_000_000,
{
}

/// A file that is there already is not fetched again, and counts as its own size.
pub proof fn lemma_present(
    before: Download,
    after: Download,
    files: Seq<ModelFile>,
    n: u64,
    c: bool,
    r: DownloadAction,
)
    requires
        before.file < files.len(),
        files.len() <= usize::MAX,
        before.has_room(DownloadEvent::Present(n)),
        download::is_step(before, after, files, DownloadEvent::Present(n), c, r),
    ensures
        after.file == before.file + 1,
        before.file + 1 < files.len() ==> r is Check,
        before.file + 1 == files.len() ==> r is Done,
        0 <= n - 1_000_000 * (after.downloaded_mb - before.downloaded_mb) < 1_000_000,
        after.received == before.received,
{
}

/// A download looks at its files from the first one on, and says which it is at.
pub proof fn lemma_begins(d: Download, files: &Vec<ModelFile>, a: DownloadAction, told: String)
    requires
        call_ensures(Download::begin, (&d, files), a),
        call_ensures(Download::announcement, (&d, files), told),
        d.file < files@.len(),
    ensures
        a is Check,
        told@ == "downloading "@ + files@[d.file as int].name@ + "…"@,
{
}

/// A download with no file left is done.
pub proof fn lemma_done(d: Download, files: &Vec<ModelFile>, a: DownloadAction)
    requires
        call_ensures(Download::begin, (&d, files), a),
        d.file >= files@.len(),
    ensures
        a is Done,
{
}

} // verus!
