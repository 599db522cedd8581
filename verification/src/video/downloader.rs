//! Downloads: file names, progress and how a transfer ends.

use crate::error::{IpcError, IpcErrorKind};
use crate::json::slice_in;
use crate::text::{chars_of, contains, occurs, str_eq, trim_chars, trimmed};
use crate::video::{DownloadProgress, DownloadProgressView, DownloadStatus, DownloadStatusView};
use vstd::prelude::*;

verus! {

/// Whether a file name may not hold `c`.
pub open spec fn is_reserved(c: char) -> bool {
    c == '/' || c == '\\' || c == ':' || c == '*' || c == '?' || c == '"' || c == '<' || c == '>'
        || c == '|'
}

/// `c`, or `_` in its place where a file name may not hold it.
pub open spec fn safe_char(c: char) -> char {
    if is_reserved(c) {
        '_'
    } else {
        c
    }
}

/// `name` as a file name: `_` for each character that a file name may not
/// hold, and no white space at either end.
pub open spec fn safe_name(name: Seq<char>) -> Seq<char> {
    trimmed(name.map_values(|c: char| safe_char(c)))
}

/// `name` as a file name.
pub fn sanitize_filename(name: &str) -> (r: String)
    ensures
        r@ == safe_name(name@),
{
    let chars: Vec<char> = chars_of(name);
    let mut mapped: Vec<char> = Vec::new();
    let mut i: usize = 0;
    while i < chars.len()
        invariant
            i <= chars.len(),
            mapped@ == chars@.take(i as int).map_values(|c: char| safe_char(c)),
        decreases chars.len() - i,
    {
        let c: char = chars[i];
        let safe: char = if c == '/' || c == '\\' || c == ':' || c == '*' || c == '?' || c == '"'
            || c == '<' || c == '>' || c == '|' {
            '_'
        } else {
            c
        };
        mapped.push(safe);
        assert(chars@.take(i + 1).map_values(|c: char| safe_char(c)) =~= chars@.take(
            i as int,
        ).map_values(|c: char| safe_char(c)).push(safe_char(c)));
        i = i + 1;
    }
    assert(chars@.take(chars.len() as int) =~= chars@);
    crate::text::text_of(&trim_chars(&mapped))
}

/// The name of the file that the video titled `title` is saved under.
pub fn download_filename(title: &str) -> (r: String)
    ensures
        r@ == safe_name(title@) + ".mp4"@,
{
    sanitize_filename(title).concat(".mp4")
}

/// Whether `url` points into Bilibili's media servers.
pub open spec fn is_bilibili_media(url: Seq<char>) -> bool {
    occurs(url, "bilibili.com"@) || occurs(url, "bilivideo."@)
}

/// The page that a request for `url` names as the one it comes from: media
/// of Bilibili are asked for in the name of its front page, all else in no
/// name.
pub fn referer_for(url: &str) -> (r: Option<&'static str>)
    ensures
        slice_in(r) == if is_bilibili_media(url@) {
            Some("https://www.bilibili.com/"@)
        } else {
            None
        },
{
    if contains(url, "bilibili.com") || contains(url, "bilivideo.") {
        Some("https://www.bilibili.com/")
    } else {
        None
    }
}

/// Whether the address behind `url` has to be asked for before the
/// download: media of Bilibili are fetched as they are.
pub fn needs_resolution(url: &str) -> (r: bool)
    ensures
        r == !is_bilibili_media(url@),
{
    !(contains(url, "bilibili.com") || contains(url, "bilivideo."))
}

/// Where a request for `url` leads: to `location` where the answer was a
/// redirect that names one, else to `url` itself.
pub fn redirect_target(url: &str, redirected: bool, location: Option<&str>) -> (r: String)
    ensures
        r@ == if redirected && location is Some {
            location.unwrap()@
        } else {
            url@
        },
{
    if redirected {
        match location {
            Some(target) => target.to_owned(),
            None => url.to_owned(),
        }
    } else {
        url.to_owned()
    }
}

/// How much time lies between two reports of progress, in milliseconds.
pub const REPORT_INTERVAL_MS: u64 = 200;

/// The bytes per second that `bytes` in `millis` come to, rounded down and
/// held at the largest `u64`.
pub open spec fn rate(bytes: u64, millis: u64) -> u64 {
    if millis == 0 {
        0
    } else if bytes * 1000 / (millis as int) > u64::MAX {
        u64::MAX
    } else {
        (bytes * 1000 / (millis as int)) as u64
    }
}

/// The bytes per second that `bytes` in `millis` come to.
pub fn transfer_rate(bytes: u64, millis: u64) -> (r: u64)
    ensures
        r == rate(bytes, millis),
{
    if millis == 0 {
        return 0;
    }
    let scaled: u128 = (bytes as u128) * 1000;
    let per_second: u128 = scaled / (millis as u128);
    if per_second > u64::MAX as u128 {
        u64::MAX
    } else {
        per_second as u64
    }
}

/// What a download has taken in, and when it last said so. Times are
/// milliseconds on a clock that does not go back.
#[derive(Clone, Copy, Debug, PartialEq, Eq, Structural)]
pub struct ProgressTracker {
    pub downloaded: u64,
    pub last_report: u64,
    pub last_downloaded: u64,
}

/// `a + b`, held at the largest `u64`.
pub open spec fn clamp_add(a: u64, b: u64) -> u64 {
    if a + b > u64::MAX {
        u64::MAX
    } else {
        (a + b) as u64
    }
}

/// `a - b`, held at zero.
pub open spec fn gap(a: u64, b: u64) -> u64 {
    if a >= b {
        (a - b) as u64
    } else {
        0
    }
}

/// Whether a chunk that arrives at `now` is reported.
pub open spec fn is_due(t: ProgressTracker, now: u64) -> bool {
    now >= t.last_report && now - t.last_report >= REPORT_INTERVAL_MS
}

/// The tracker after a chunk of `len` bytes arrived at `now`.
pub open spec fn after_chunk(t: ProgressTracker, len: u64, now: u64) -> ProgressTracker {
    let downloaded = clamp_add(t.downloaded, len);
    if is_due(t, now) {
        ProgressTracker { downloaded, last_report: now, last_downloaded: downloaded }
    } else {
        ProgressTracker { downloaded, ..t }
    }
}

/// The speed reported for a chunk of `len` bytes that arrives at `now`,
/// where it is reported.
pub open spec fn reported_speed(t: ProgressTracker, len: u64, now: u64) -> Option<u64> {
    if is_due(t, now) {
        Some(
            rate(
                gap(clamp_add(t.downloaded, len), t.last_downloaded),
                (now - t.last_report) as u64,
            ),
        )
    } else {
        None
    }
}

impl ProgressTracker {
    /// A tracker for a download that begins at `now`.
    pub fn new(now: u64) -> (t: ProgressTracker)
        ensures
            t == (ProgressTracker { downloaded: 0, last_report: now, last_downloaded: 0 }),
    {
        ProgressTracker { downloaded: 0, last_report: now, last_downloaded: 0 }
    }

    /// Counts a chunk of `len` bytes that arrived at `now`. Where the last
    /// report lies at least the interval back, the result is the speed since
    /// then, and this chunk counts as reported.
    pub fn on_chunk(&mut self, len: u64, now: u64) -> (speed: Option<u64>)
        ensures
            *final(self) == after_chunk(*old(self), len, now),
            speed == reported_speed(*old(self), len, now),
    {
        self.downloaded = self.downloaded.saturating_add(len);
        if now >= self.last_report && now - self.last_report >= REPORT_INTERVAL_MS {
            let speed: u64 = transfer_rate(
                self.downloaded.saturating_sub(self.last_downloaded),
                now - self.last_report,
            );
            self.last_report = now;
            self.last_downloaded = self.downloaded;
            Some(speed)
        } else {
            None
        }
    }
}

/// What is reported while the download `task_id` runs.
pub fn running_event(task_id: &str, downloaded: u64, total: Option<u64>, speed: u64) -> (r:
    DownloadProgress)
    ensures
        r@ == (DownloadProgressView {
            task_id: task_id@,
            downloaded,
            total,
            speed,
            status: DownloadStatusView::Downloading,
        }),
{
    DownloadProgress {
        task_id: task_id.to_owned(),
        downloaded,
        total,
        speed,
        status: DownloadStatus::Downloading,
    }
}

/// What is reported when the download `task_id` is cancelled.
pub fn cancelled_event(task_id: &str, downloaded: u64, total: Option<u64>) -> (r: DownloadProgress)
    ensures
        r@ == (DownloadProgressView {
            task_id: task_id@,
            downloaded,
            total,
            speed: 0,
            status: DownloadStatusView::Cancelled,
        }),
{
    DownloadProgress {
        task_id: task_id.to_owned(),
        downloaded,
        total,
        speed: 0,
        status: DownloadStatus::Cancelled,
    }
}

/// What is reported when the download `task_id` has ended: that it is
/// complete, or why it failed.
pub fn finished_event(task_id: &str, failure: Option<&str>) -> (r: DownloadProgress)
    ensures
        r@ == (DownloadProgressView {
            task_id: task_id@,
            downloaded: 0,
            total: None,
            speed: 0,
            status: match failure {
                Some(reason) => DownloadStatusView::Failed(reason@),
                None => DownloadStatusView::Completed,
            },
        }),
{
    DownloadProgress {
        task_id: task_id.to_owned(),
        downloaded: 0,
        total: None,
        speed: 0,
        status: match failure {
            Some(reason) => DownloadStatus::Failed(reason.to_owned()),
            None => DownloadStatus::Completed,
        },
    }
}

/// What is said of a task that is not running.
pub open spec fn no_task_message() -> Seq<char> {
    "Download task not found"@
}

/// What is said of a download that was cancelled.
pub open spec fn cancelled_message() -> Seq<char> {
    "Download cancelled"@
}

/// The fault that ends a cancelled download.
pub fn cancelled_fault() -> (e: IpcError)
    ensures
        e.kind == IpcErrorKind::Internal,
        e.message@ == cancelled_message(),
{
    IpcError::internal("Download cancelled")
}

/// A download that is under way.
#[derive(Debug, PartialEq, Eq)]
pub struct ActiveTask {
    pub task_id: String,
    pub title: String,
}

/// The title under which the download `task_id` stands among the first
/// `upto` of `tasks`: that of the last entry with the id, or nothing where
/// there is none.
pub open spec fn titled(tasks: Seq<ActiveTask>, task_id: Seq<char>, upto: int) -> Option<Seq<char>>
    decreases upto,
{
    if upto <= 0 || upto > tasks.len() {
        None
    } else if tasks[upto - 1].task_id@ == task_id {
        Some(tasks[upto - 1].title@)
    } else {
        titled(tasks, task_id, upto - 1)
    }
}

/// The downloads that are under way, each under its id.
pub struct DownloadManager {
    tasks: Vec<ActiveTask>,
}

impl DownloadManager {
    /// The title of the video that the download `task_id` fetches; nothing
    /// where no such download is under way.
    pub closed spec fn title_of(&self, task_id: Seq<char>) -> Option<Seq<char>> {
        titled(self.tasks@, task_id, self.tasks@.len() as int)
    }

    /// Whether the download `task_id` is under way.
    pub open spec fn is_active(&self, task_id: Seq<char>) -> bool {
        self.title_of(task_id) is Some
    }

    /// A manager without downloads.
    pub fn new() -> (r: DownloadManager)
        ensures
            forall|task_id: Seq<char>| r.title_of(task_id) is None,
    {
        DownloadManager { tasks: Vec::new() }
    }

    /// Whether the download `task_id` is under way.
    pub fn has_task(&self, task_id: &str) -> (r: bool)
        ensures
            r == self.is_active(task_id@),
    {
        let mut i: usize = self.tasks.len();
        while i > 0
            invariant
                i <= self.tasks.len(),
                self.title_of(task_id@) == titled(self.tasks@, task_id@, i as int),
            decreases i,
        {
            if str_eq(self.tasks[i - 1].task_id.as_str(), task_id) {
                return true;
            }
            i = i - 1;
        }
        false
    }

    /// Takes up the download `task_id` of the video titled `title`, in
    /// place of any download that stood under the same id, and gives the
    /// name of the file it is saved under.
    pub fn start_download(&mut self, task_id: &str, title: &str) -> (filename: String)
        ensures
            filename@ == safe_name(title@) + ".mp4"@,
            final(self).title_of(task_id@) == Some(title@),
            forall|other: Seq<char>|
                other != task_id@ ==> final(self).title_of(other) == old(self).title_of(other),
    {
        let filename: String = download_filename(title);
        let task = ActiveTask { task_id: task_id.to_owned(), title: title.to_owned() };
        self.tasks.push(task);
        proof {
            assert forall|any: Seq<char>| any != task_id@ implies final(self).title_of(any) == old(
                self,
            ).title_of(any) by {
                lemma_titled_prefix(self.tasks@, old(self).tasks@, any, old(self).tasks@.len() as int);
            }
        }
        filename
    }

    /// Lets go of the download `task_id`, which has ended.
    pub fn finish(&mut self, task_id: &str)
        ensures
            final(self).title_of(task_id@) is None,
            forall|other: Seq<char>|
                other != task_id@ ==> final(self).title_of(other) == old(self).title_of(other),
    {
        let mut kept: Vec<ActiveTask> = Vec::new();
        let mut i: usize = 0;
        while i < self.tasks.len()
            invariant
                i <= self.tasks.len(),
                titled(kept@, task_id@, kept@.len() as int) is None,
                forall|other: Seq<char>|
                    other != task_id@ ==> titled(kept@, other, kept@.len() as int) == titled(
                        self.tasks@,
                        other,
                        i as int,
                    ),
            decreases self.tasks.len() - i,
        {
            let task: &ActiveTask = &self.tasks[i];
            let ghost before = kept@;
            if !str_eq(task.task_id.as_str(), task_id) {
                let copy = ActiveTask { task_id: task.task_id.clone(), title: task.title.clone() };
                kept.push(copy);
                proof {
                    assert forall|any: Seq<char>| any != task.task_id@ implies titled(
                        kept@,
                        any,
                        kept@.len() as int,
                    ) == titled(before, any, before.len() as int) by {
                        lemma_titled_prefix(kept@, before, any, before.len() as int);
                    }
                }
            }
            proof {
                assert forall|other: Seq<char>| other != task_id@ implies titled(
                    kept@,
                    other,
                    kept@.len() as int,
                ) == titled(self.tasks@, other, i + 1) by {
                    assert(titled(self.tasks@, other, i + 1) == if task.task_id@ == other {
                        Some(task.title@)
                    } else {
                        titled(self.tasks@, other, i as int)
                    });
                }
            }
            i = i + 1;
        }
        self.tasks = kept;
    }

    /// Whether the download `task_id` can be cancelled: it can where it is
    /// under way, and is not found where it is not.
    pub fn cancel_download(&self, task_id: &str) -> (r: Result<(), IpcError>)
        ensures
            match r {
                Ok(_) => self.is_active(task_id@),
                Err(e) => !self.is_active(task_id@) && e.kind == IpcErrorKind::NotFound
                    && e.message@ == no_task_message(),
            },
    {
        if self.has_task(task_id) {
            Ok(())
        } else {
            Err(IpcError::not_found("Download task not found"))
        }
    }
}

/// What stands under an id among the first tasks of a list stands under it
/// among the first as many of any list that begins the same.
proof fn lemma_titled_prefix(longer: Seq<ActiveTask>, shorter: Seq<ActiveTask>, id: Seq<char>, upto: int)
    requires
        0 <= upto <= shorter.len() <= longer.len(),
        forall|i: int| 0 <= i < shorter.len() ==> longer[i] == shorter[i],
    ensures
        titled(longer, id, upto) == titled(shorter, id, upto),
    decreases upto,
{
    if upto > 0 {
        lemma_titled_prefix(longer, shorter, id, upto - 1);
    }
}

} // verus!
