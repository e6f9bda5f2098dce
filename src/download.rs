//! The decisions of a download: whether an existing file already holds the
//! object, when to report progress, at what speed, and what the final
//! report and result are. The caller performs the request and the writes
//! and hands each event to the controller.
use vstd::prelude::*;

verus! {

/// One progress report of a download.
#[derive(Debug, Clone)]
pub struct DownloadProgress {
    pub task_id: String,
    pub downloaded: u64,
    pub total: u64,
    pub speed: u64,
    pub status: String,
}

/// The outcome of a download handed back to its caller.
#[derive(Debug, Clone)]
pub struct DownloadResult {
    pub task_id: String,
    pub success: bool,
    pub file_path: String,
    pub error: Option<String>,
}

/// Where a download stands once the remote has declared its length.
#[derive(Debug, Clone, Copy, PartialEq, Eq, Structural)]
pub enum DownloadPhase {
    /// The file on disk already has the declared size; nothing is fetched.
    Skipped,
    /// The body is being received and written.
    Streaming,
    /// The body was received in full.
    Finalized,
}

/// Least time between two progress reports while streaming, in
/// milliseconds.
pub const PROGRESS_INTERVAL_MS: u64 = 200;

/// Status of the single report of a skipped download.
pub open spec fn status_skipped() -> Seq<char> {
    seq!['s', 'k', 'i', 'p', 'p', 'e', 'd']
}

/// Status of the reports made while receiving.
pub open spec fn status_downloading() -> Seq<char> {
    seq!['d', 'o', 'w', 'n', 'l', 'o', 'a', 'd', 'i', 'n', 'g']
}

/// Status of the final report of a received download.
pub open spec fn status_completed() -> Seq<char> {
    seq!['c', 'o', 'm', 'p', 'l', 'e', 't', 'e', 'd']
}

/// An existing regular file of `existing_size` bytes is taken as the whole
/// object when the remote declared a known, non-zero length equal to it.
pub open spec fn should_skip(total: u64, existing_size: Option<u64>) -> bool {
    total > 0 && existing_size == Some(total)
}

/// Bytes per second for `bytes` received in `elapsed_ms` milliseconds,
/// rounded down and capped at `u64::MAX`; 0 when no time has elapsed.
pub open spec fn speed_of(bytes: nat, elapsed_ms: nat) -> nat {
    if elapsed_ms == 0 {
        0
    } else if bytes * 1000 / elapsed_ms > u64::MAX {
        u64::MAX as nat
    } else {
        bytes * 1000 / elapsed_ms
    }
}

/// Bytes per second for `bytes` received in `elapsed_ms` milliseconds.
pub fn transfer_speed(bytes: u64, elapsed_ms: u64) -> (r: u64)
    ensures
        r == speed_of(bytes as nat, elapsed_ms as nat),
{
    if elapsed_ms == 0 {
        return 0;
    }
    let scaled = (bytes as u128) * 1000 / (elapsed_ms as u128);
    if scaled > u64::MAX as u128 {
        u64::MAX
    } else {
        scaled as u64
    }
}

/// The state of one download, driven by its caller.
#[derive(Debug)]
pub struct DownloadController {
    pub task_id: String,
    pub save_path: String,
    pub total: u64,
    pub downloaded: u64,
    pub last_emit_ms: u64,
    pub last_emit_bytes: u64,
    pub phase: DownloadPhase,
}

fn progress_event(task_id: &String, downloaded: u64, total: u64, speed: u64, status: &str) -> (r:
    DownloadProgress)
    ensures
        r.task_id == task_id,
        r.downloaded == downloaded,
        r.total == total,
        r.speed == speed,
        r.status@ == status@,
{
    DownloadProgress {
        task_id: task_id.clone(),
        downloaded,
        total,
        speed,
        status: String::from_str(status),
    }
}

impl DownloadController {
    /// The bytes counted at the last report never exceed those received,
    /// and a skipped download counts the whole declared length.
    pub open spec fn wf(&self) -> bool {
        &&& self.last_emit_bytes <= self.downloaded
        &&& self.phase == DownloadPhase::Skipped ==> self.downloaded == self.total
    }

    /// Starts a download whose remote declared `total` bytes (0 when
    /// unknown), with `existing_size` the size of a regular file already at
    /// the destination, at time `now_ms`. Returns the controller and the
    /// first report: `skipped` with everything downloaded when the file is
    /// taken as complete, else `downloading` with nothing downloaded yet.
    pub fn start(
        task_id: String,
        save_path: String,
        total: u64,
        existing_size: Option<u64>,
        now_ms: u64,
    ) -> (r: (Self, DownloadProgress))
        ensures
            r.0.wf(),
            r.0.task_id == task_id,
            r.0.save_path == save_path,
            r.0.total == total,
            r.0.last_emit_ms == now_ms,
            r.0.last_emit_bytes == r.0.downloaded,
            should_skip(total, existing_size) ==> r.0.phase == DownloadPhase::Skipped
                && r.0.downloaded == total && r.1.downloaded == total && r.1.status@
                == status_skipped(),
            !should_skip(total, existing_size) ==> r.0.phase == DownloadPhase::Streaming
                && r.0.downloaded == 0 && r.1.downloaded == 0 && r.1.status@
                == status_downloading(),
            r.1.task_id == task_id,
            r.1.total == total,
            r.1.speed == 0,
    {
        let skip = match existing_size {
            Some(size) => total > 0 && size == total,
            None => false,
        };
        let (phase, downloaded, status) = if skip {
            proof {
                reveal_strlit("skipped");
            }
            (DownloadPhase::Skipped, total, "skipped")
        } else {
            proof {
                reveal_strlit("downloading");
            }
            (DownloadPhase::Streaming, 0, "downloading")
        };
        let event = progress_event(&task_id, downloaded, total, 0, status);
        let controller = DownloadController {
            task_id,
            save_path,
            total,
            downloaded,
            last_emit_ms: now_ms,
            last_emit_bytes: downloaded,
            phase,
        };
        (controller, event)
    }

    /// Accounts for `len` more bytes written at time `now_ms`. A report is
    /// due when at least `PROGRESS_INTERVAL_MS` have passed since the last
    /// one; it carries the speed since that report.
    pub fn record_chunk(&mut self, len: u64, now_ms: u64) -> (r: Option<DownloadProgress>)
        requires
            old(self).wf(),
            old(self).phase == DownloadPhase::Streaming,
            old(self).downloaded + len <= u64::MAX,
            now_ms >= old(self).last_emit_ms,
        ensures
            final(self).wf(),
            final(self).downloaded == old(self).downloaded + len,
            final(self).phase == old(self).phase,
            final(self).task_id == old(self).task_id,
            final(self).save_path == old(self).save_path,
            final(self).total == old(self).total,
            now_ms - old(self).last_emit_ms >= PROGRESS_INTERVAL_MS ==> {
                &&& r matches Some(event)
                &&& event.task_id == old(self).task_id
                &&& event.downloaded == final(self).downloaded
                &&& event.total == old(self).total
                &&& event.speed == speed_of(
                    (final(self).downloaded - old(self).last_emit_bytes) as nat,
                    (now_ms - old(self).last_emit_ms) as nat,
                )
                &&& event.status@ == status_downloading()
                &&& final(self).last_emit_ms == now_ms
                &&& final(self).last_emit_bytes == final(self).downloaded
            },
            now_ms - old(self).last_emit_ms < PROGRESS_INTERVAL_MS ==> r is None
                && final(self).last_emit_ms == old(self).last_emit_ms
                && final(self).last_emit_bytes == old(self).last_emit_bytes,
    {
        self.downloaded = self.downloaded + len;
        let elapsed = now_ms - self.last_emit_ms;
        if elapsed < PROGRESS_INTERVAL_MS {
            return None;
        }
        let speed = transfer_speed(self.downloaded - self.last_emit_bytes, elapsed);
        proof {
            reveal_strlit("downloading");
        }
        let event = progress_event(&self.task_id, self.downloaded, self.total, speed, "downloading");
        self.last_emit_ms = now_ms;
        self.last_emit_bytes = self.downloaded;
        Some(event)
    }

    /// Ends a streamed download: the `completed` report with everything
    /// received, whatever the time since the last report.
    pub fn finish(&mut self) -> (r: DownloadProgress)
        requires
            old(self).wf(),
            old(self).phase == DownloadPhase::Streaming,
        ensures
            final(self).wf(),
            final(self).phase == DownloadPhase::Finalized,
            final(self).downloaded == old(self).downloaded,
            final(self).task_id == old(self).task_id,
            final(self).save_path == old(self).save_path,
            final(self).total == old(self).total,
            r.task_id == old(self).task_id,
            r.downloaded == old(self).downloaded,
            r.total == old(self).total,
            r.speed == 0,
            r.status@ == status_completed(),
    {
        self.phase = DownloadPhase::Finalized;
        proof {
            reveal_strlit("completed");
        }
        progress_event(&self.task_id, self.downloaded, self.total, 0, "completed")
    }

    /// Ends a download whose body of `len` bytes arrived in one piece at
    /// time `now_ms`: the `completed` report, with the speed since the
    /// first report.
    pub fn finish_whole(&mut self, len: u64, now_ms: u64) -> (r: DownloadProgress)
        requires
            old(self).wf(),
            old(self).phase == DownloadPhase::Streaming,
            old(self).downloaded == 0,
            now_ms >= old(self).last_emit_ms,
        ensures
            final(self).wf(),
            final(self).phase == DownloadPhase::Finalized,
            final(self).downloaded == len,
            final(self).task_id == old(self).task_id,
            final(self).save_path == old(self).save_path,
            final(self).total == old(self).total,
            r.task_id == old(self).task_id,
            r.downloaded == len,
            r.total == old(self).total,
            r.speed == speed_of(len as nat, (now_ms - old(self).last_emit_ms) as nat),
            r.status@ == status_completed(),
    {
        self.downloaded = len;
        self.phase = DownloadPhase::Finalized;
        let speed = transfer_speed(len, now_ms - self.last_emit_ms);
        proof {
            reveal_strlit("completed");
        }
        progress_event(&self.task_id, len, self.total, speed, "completed")
    }

    /// The successful result of a download that was skipped or finished.
    pub fn result(&self) -> (r: DownloadResult)
        requires
            self.phase != DownloadPhase::Streaming,
        ensures
            r.task_id == self.task_id,
            r.success,
            r.file_path == self.save_path,
            r.error is None,
    {
        DownloadResult {
            task_id: self.task_id.clone(),
            success: true,
            file_path: self.save_path.clone(),
            error: None,
        }
    }
}

} // verus!
