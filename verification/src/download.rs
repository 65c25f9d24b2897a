//! Resumable downloads, as far as the core decides: the record of a
//! download, where it is written, how it is resumed, and when it is verified.

use vstd::prelude::*;
use vstd::string::{StrSliceExecFns, StringExecFns, StringSliceAdditionalSpecFns};
use crate::entities::{Download, DownloadStatus, StartDownloadInput};
use crate::error::{AppError, AppResult};
use crate::memory::{chars_of, last_char_before, rfind_char};
use crate::numbers::{decimal, decimal_text};
use crate::paths::{join_path, joined_path, AppPaths, BIN_DIR};
use crate::strings::{lowercase_of, to_lowercase};
use crate::text::{clone_opt, ends_with, has_suffix, opt_str_text, opt_text, str_eq};

verus! {

/// Seconds between two heartbeats of a running download.
pub const HEARTBEAT_INTERVAL_SECS: u64 = 5;

/// Seconds without a heartbeat after which a running download is stale.
pub const STALE_THRESHOLD_SECS: i64 = 30;

/// Seconds between two writes of the progress to the store.
pub const PROGRESS_STORE_SECS: u64 = 2;

/// Milliseconds between two progress events.
pub const PROGRESS_EVENT_MILLIS: u64 = 200;

impl Download {
    /// A copy of the download.
    pub fn copy(&self) -> (copy: Download)
        ensures
            copy == *self,
    {
        Download {
            id: self.id.clone(),
            url: self.url.clone(),
            destination_path: self.destination_path.clone(),
            total_bytes: self.total_bytes,
            downloaded_bytes: self.downloaded_bytes,
            status: self.status,
            checksum: clone_opt(&self.checksum),
            created_at: self.created_at,
            updated_at: self.updated_at,
            error_message: clone_opt(&self.error_message),
        }
    }
}

/// The download is active: pending, running or paused.
pub open spec fn is_active(d: Download) -> bool {
    d.status == DownloadStatus::Pending || d.status == DownloadStatus::Downloading || d.status
        == DownloadStatus::Paused
}

/// The first active download from `from` on.
pub open spec fn active_at(downloads: Seq<Download>, from: int) -> Option<int>
    decreases downloads.len() - from + 1,
{
    if from < 0 || from >= downloads.len() {
        None
    } else if is_active(downloads[from]) {
        Some(from)
    } else {
        active_at(downloads, from + 1)
    }
}

/// The name of the file of a download: what stands behind the last slash of
/// its address, or the whole address where it has none.
pub open spec fn file_name_of(url: Seq<char>) -> Seq<char> {
    match last_char_before(url, '/', url.len() as int) {
        Some(at) => url.subrange(at + 1, url.len() as int),
        None => url,
    }
}

/// Where a download is written: a binary under `bin` in the data
/// directory, anything else in the directory for models, under the name of
/// its file.
pub open spec fn destination_of(paths: AppPaths, input: StartDownloadInput) -> Seq<char> {
    if is_binary(input) {
        joined_path(joined_path(paths.data_dir@, BIN_DIR@), file_name_of(input.url@))
    } else {
        joined_path(paths.models_dir@, file_name_of(input.url@))
    }
}

/// A download is a binary where its kind is `binary`; any other is a
/// model.
pub open spec fn is_binary(input: StartDownloadInput) -> bool {
    opt_text(input.download_type) == Some("binary"@)
}

/// The new record of a download of `input` that is written to
/// `destination`.
pub open spec fn is_new_download(
    d: Download,
    input: StartDownloadInput,
    destination: Seq<char>,
    id: Seq<char>,
    now: i64,
) -> bool {
    &&& d.id@ == id
    &&& d.url == input.url
    &&& d.destination_path@ == destination
    &&& d.total_bytes == 0
    &&& d.downloaded_bytes == 0
    &&& d.status == DownloadStatus::Pending
    &&& d.checksum == input.checksum
    &&& d.created_at == now
    &&& d.updated_at == now
    &&& d.error_message is None
}

/// Another download is running.
pub open spec fn is_busy(downloads: Seq<Download>) -> bool {
    active_at(downloads, 0) is Some && downloads[active_at(downloads, 0)->0].status
        == DownloadStatus::Downloading
}

/// The download `after` is `before` in the status `status`, with the
/// error `error`, touched at `now`.
pub open spec fn status_set(
    before: Download,
    after: Download,
    status: DownloadStatus,
    error: Option<Seq<char>>,
    now: i64,
) -> bool {
    &&& after.id == before.id
    &&& after.url == before.url
    &&& after.destination_path == before.destination_path
    &&& after.total_bytes == before.total_bytes
    &&& after.downloaded_bytes == before.downloaded_bytes
    &&& after.status == status
    &&& after.checksum == before.checksum
    &&& after.created_at == before.created_at
    &&& after.updated_at == now
    &&& opt_text(after.error_message) == error
}

/// The first position from `from` on of a download with the id `id`.
pub open spec fn download_at(downloads: Seq<Download>, id: Seq<char>, from: int) -> Option<int>
    decreases downloads.len() - from + 1,
{
    if from < 0 || from >= downloads.len() {
        None
    } else if downloads[from].id@ == id {
        Some(from)
    } else {
        download_at(downloads, id, from + 1)
    }
}

/// Every download with the id `id` is in the status `status`, without an
/// error and touched at `now`; every other download is as it was.
pub open spec fn moved_to(
    after: Seq<Download>,
    before: Seq<Download>,
    id: Seq<char>,
    status: DownloadStatus,
    now: i64,
) -> bool {
    &&& after.len() == before.len()
    &&& forall|i: int|
        0 <= i < before.len() ==> if (#[trigger] before[i]).id@ == id {
            status_set(before[i], after[i], status, None, now)
        } else {
            after[i] == before[i]
        }
}

/// The unit that holds the operations on the stored downloads.
pub struct DownloadRepo;

impl DownloadRepo {
    /// The first download with the id `id`.
    pub fn find_by_id(downloads: &Vec<Download>, id: &str) -> (result: AppResult<Download>)
        ensures
            match result {
                Ok(d) => download_at(downloads@, id@, 0) is Some && d == downloads@[download_at(
                    downloads@,
                    id@,
                    0,
                )->0],
                Err(e) => download_at(downloads@, id@, 0) is None && e is NotFound,
            },
    {
        let mut i: usize = 0;
        while i < downloads.len()
            invariant
                i <= downloads.len(),
                download_at(downloads@, id@, 0) == download_at(downloads@, id@, i as int),
            decreases downloads.len() - i,
        {
            if str_eq(downloads[i].id.as_str(), id) {
                return Ok(downloads[i].copy());
            }
            i += 1;
        }
        Err(AppError::NotFound("Record not found".to_owned()))
    }

    /// The first active download.
    pub fn find_active(downloads: &Vec<Download>) -> (found: Option<Download>)
        ensures
            match found {
                Some(d) => active_at(downloads@, 0) is Some && d == downloads@[active_at(
                    downloads@,
                    0,
                )->0] && is_active(d),
                None => active_at(downloads@, 0) is None,
            },
    {
        let mut i: usize = 0;
        while i < downloads.len()
            invariant
                i <= downloads.len(),
                active_at(downloads@, 0) == active_at(downloads@, i as int),
            decreases downloads.len() - i,
        {
            let active = match downloads[i].status {
                DownloadStatus::Pending => true,
                DownloadStatus::Downloading => true,
                DownloadStatus::Paused => true,
                _ => false,
            };
            if active {
                return Some(downloads[i].copy());
            }
            i += 1;
        }
        None
    }

    /// Sets the status and the error of every download with the id `id`,
    /// and touches it at `now`.
    pub fn update_status(
        downloads: &mut Vec<Download>,
        id: &str,
        status: DownloadStatus,
        error: Option<&str>,
        now: i64,
    )
        ensures
            final(downloads)@.len() == old(downloads)@.len(),
            forall|i: int|
                0 <= i < old(downloads)@.len() ==> if (#[trigger] old(downloads)@[i]).id@ == id@ {
                    status_set(
                        old(downloads)@[i],
                        final(downloads)@[i],
                        status,
                        opt_str_text(error),
                        now,
                    )
                } else {
                    final(downloads)@[i] == old(downloads)@[i]
                },
    {
        let mut i: usize = 0;
        while i < downloads.len()
            invariant
                i <= downloads.len(),
                downloads@.len() == old(downloads)@.len(),
                forall|j: int|
                    0 <= j < i ==> if (#[trigger] old(downloads)@[j]).id@ == id@ {
                        status_set(
                            old(downloads)@[j],
                            downloads@[j],
                            status,
                            opt_str_text(error),
                            now,
                        )
                    } else {
                        downloads@[j] == old(downloads)@[j]
                    },
                forall|j: int| i <= j < downloads@.len() ==> downloads@[j] == old(downloads)@[j],
            decreases downloads.len() - i,
        {
            if str_eq(downloads[i].id.as_str(), id) {
                let mut d = downloads[i].copy();
                d.status = status;
                d.updated_at = now;
                d.error_message = match error {
                    Some(text) => Some(text.to_owned()),
                    None => None,
                };
                downloads.set(i, d);
            }
            i += 1;
        }
    }

    /// Records the progress of every download with the id `id`: the bytes
    /// written so far, where they are given as a number that is not negative,
    /// and in any case the time, as a heartbeat.
    pub fn update_progress(downloads: &mut Vec<Download>, id: &str, bytes: i64, now: i64)
        ensures
            final(downloads)@.len() == old(downloads)@.len(),
            forall|i: int|
                0 <= i < old(downloads)@.len() ==> #[trigger] final(downloads)@[i] == (if (old(downloads)@[i]).id@ == id@ {
                    Download {
                        downloaded_bytes: if bytes >= 0 {
                            bytes
                        } else {
                            old(downloads)@[i].downloaded_bytes
                        },
                        updated_at: now,
                        ..old(downloads)@[i]
                    }
                } else {
                    old(downloads)@[i]
                }),
    {
        let mut i: usize = 0;
        while i < downloads.len()
            invariant
                i <= downloads.len(),
                downloads@.len() == old(downloads)@.len(),
                forall|j: int|
                    0 <= j < i ==> #[trigger] downloads@[j] == (if (old(downloads)@[j]).id@ == id@ {
                        Download {
                            downloaded_bytes: if bytes >= 0 {
                                bytes
                            } else {
                                old(downloads)@[j].downloaded_bytes
                            },
                            updated_at: now,
                            ..old(downloads)@[j]
                        }
                    } else {
                        old(downloads)@[j]
                    }),
                forall|j: int| i <= j < downloads@.len() ==> downloads@[j] == old(downloads)@[j],
            decreases downloads.len() - i,
        {
            if str_eq(downloads[i].id.as_str(), id) {
                let mut d = downloads[i].copy();
                if bytes >= 0 {
                    d.downloaded_bytes = bytes;
                }
                d.updated_at = now;
                downloads.set(i, d);
            }
            i += 1;
        }
    }
}

/// The unit that holds the rules for downloads.
pub struct DownloadService;

impl DownloadService {
    /// Where a download goes: whether it is a binary, which goes into the
    /// directory `bin` of the data directory, or a model, which goes among
    /// the models; and the name of its file, which is what stands behind the
    /// last slash of its address.
    pub fn target(input: &StartDownloadInput) -> (target: (bool, String))
        ensures
            target.0 == is_binary(*input),
            target.1@ == file_name_of(input.url@),
    {
        let chars = chars_of(input.url.as_str());
        let len = chars.len();
        let name = match rfind_char(&chars, '/') {
            Some(at) => input.url.as_str().substring_char(at + 1, len),
            None => {
                proof {
                    assert(input.url@.subrange(0, input.url@.len() as int) =~= input.url@);
                }
                input.url.as_str().substring_char(0, len)
            },
        };
        let binary = match &input.download_type {
            Some(kind) => str_eq(kind.as_str(), "binary"),
            None => false,
        };
        (binary, name.to_owned())
    }

    /// Starts a download that is written to `destination`: a new pending
    /// record. While another download is running, none is started.
    pub fn start_at(
        downloads: &mut Vec<Download>,
        input: StartDownloadInput,
        destination: String,
        id: String,
        now: i64,
    ) -> (result: AppResult<Download>)
        ensures
            match result {
                Ok(d) => !is_busy(old(downloads)@) && is_new_download(
                    d,
                    input,
                    destination@,
                    id@,
                    now,
                ) && final(downloads)@ == old(downloads)@.push(d),
                Err(e) => e is Download && is_busy(old(downloads)@) && final(downloads)@ == old(downloads)@,
            },
    {
        match DownloadRepo::find_active(downloads) {
            Some(current) => {
                match current.status {
                    DownloadStatus::Downloading => {
                        return Err(AppError::Download("Busy".to_owned()));
                    },
                    _ => {},
                }
            },
            None => {},
        }
        let d = Download {
            id,
            url: input.url,
            destination_path: destination,
            total_bytes: 0,
            downloaded_bytes: 0,
            status: DownloadStatus::Pending,
            checksum: input.checksum,
            created_at: now,
            updated_at: now,
            error_message: None,
        };
        let copy = d.copy();
        downloads.push(d);
        Ok(copy)
    }

    /// Starts a download: a new pending record, written where its kind
    /// belongs: a binary under `bin` in the data directory, anything else
    /// among the models, each under the name of its file. While another
    /// download is running, none is started.
    pub fn start(
        downloads: &mut Vec<Download>,
        paths: &AppPaths,
        input: StartDownloadInput,
        id: String,
        now: i64,
    ) -> (result: AppResult<Download>)
        ensures
            match result {
                Ok(d) => !is_busy(old(downloads)@) && is_new_download(
                    d,
                    input,
                    destination_of(*paths, input),
                    id@,
                    now,
                ) && final(downloads)@ == old(downloads)@.push(d),
                Err(e) => e is Download && is_busy(old(downloads)@) && final(downloads)@ == old(downloads)@,
            },
    {
        let (binary, name) = DownloadService::target(&input);
        let destination = if binary {
            join_path(paths.bin_dir().as_str(), name.as_str())
        } else {
            paths.model_file_path(name.as_str())
        };
        DownloadService::start_at(downloads, input, destination, id, now)
    }
}

impl DownloadService {
    /// Sets the status of the download with the id `id` and hands the
    /// download back as it then is.
    fn move_to(downloads: &mut Vec<Download>, id: &str, status: DownloadStatus, now: i64) -> (result:
        AppResult<Download>)
        ensures
            moved_to(final(downloads)@, old(downloads)@, id@, status, now),
            match result {
                Ok(d) => download_at(final(downloads)@, id@, 0) is Some && d == final(downloads)@[download_at(final(downloads)@, id@, 0)->0],
                Err(e) => download_at(final(downloads)@, id@, 0) is None && e is NotFound,
            },
    {
        DownloadRepo::update_status(downloads, id, status, None, now);
        DownloadRepo::find_by_id(downloads, id)
    }

    /// Pauses the download with the id `id`. The worker is then told to
    /// pause it.
    pub fn pause(downloads: &mut Vec<Download>, id: &str, now: i64) -> (result: AppResult<Download>)
        ensures
            moved_to(final(downloads)@, old(downloads)@, id@, DownloadStatus::Paused, now),
            match result {
                Ok(d) => download_at(final(downloads)@, id@, 0) is Some && d == final(downloads)@[download_at(final(downloads)@, id@, 0)->0],
                Err(e) => download_at(final(downloads)@, id@, 0) is None && e is NotFound,
            },
    {
        DownloadService::move_to(downloads, id, DownloadStatus::Paused, now)
    }

    /// Makes the download with the id `id` pending again. The worker is
    /// then told to resume it.
    pub fn resume(downloads: &mut Vec<Download>, id: &str, now: i64) -> (result: AppResult<Download>)
        ensures
            moved_to(final(downloads)@, old(downloads)@, id@, DownloadStatus::Pending, now),
            match result {
                Ok(d) => download_at(final(downloads)@, id@, 0) is Some && d == final(downloads)@[download_at(final(downloads)@, id@, 0)->0],
                Err(e) => download_at(final(downloads)@, id@, 0) is None && e is NotFound,
            },
    {
        DownloadService::move_to(downloads, id, DownloadStatus::Pending, now)
    }

    /// Cancels the download with the id `id`. The worker is then told to
    /// cancel it.
    pub fn cancel(downloads: &mut Vec<Download>, id: &str, now: i64)
        ensures
            moved_to(final(downloads)@, old(downloads)@, id@, DownloadStatus::Cancelled, now),
    {
        DownloadRepo::update_status(downloads, id, DownloadStatus::Cancelled, None, now);
    }

    /// The download with the id `id`.
    pub fn get_status(downloads: &Vec<Download>, id: &str) -> (result: AppResult<Download>)
        ensures
            match result {
                Ok(d) => download_at(downloads@, id@, 0) is Some && d == downloads@[download_at(
                    downloads@,
                    id@,
                    0,
                )->0],
                Err(e) => download_at(downloads@, id@, 0) is None && e is NotFound,
            },
    {
        DownloadRepo::find_by_id(downloads, id)
    }

    /// The first active download.
    pub fn get_active(downloads: &Vec<Download>) -> (found: Option<Download>)
        ensures
            match found {
                Some(d) => active_at(downloads@, 0) is Some && d == downloads@[active_at(
                    downloads@,
                    0,
                )->0] && is_active(d),
                None => active_at(downloads@, 0) is None,
            },
    {
        DownloadRepo::find_active(downloads)
    }
}

/// Looks after a download that has stopped without saying so: where the
/// first active download is running and its last heartbeat lies more than 30
/// seconds back, every download with its id is made pending again. The
/// result tells whether that was done.
pub fn check_stale_downloads(downloads: &mut Vec<Download>, now: i64) -> (reset: bool)
    ensures
        reset == (active_at(old(downloads)@, 0) is Some && ({
            let d = old(downloads)@[active_at(old(downloads)@, 0)->0];
            d.status == DownloadStatus::Downloading && now - d.updated_at > STALE_THRESHOLD_SECS
        })),
        if reset {
            moved_to(
                final(downloads)@,
                old(downloads)@,
                old(downloads)@[active_at(old(downloads)@, 0)->0].id@,
                DownloadStatus::Pending,
                now,
            )
        } else {
            final(downloads)@ == old(downloads)@
        },
{
    match DownloadRepo::find_active(downloads) {
        Some(d) => {
            if is_stale(&d, now) {
                DownloadRepo::update_status(downloads, d.id.as_str(), DownloadStatus::Pending, None, now);
                true
            } else {
                false
            }
        },
        None => false,
    }
}

/// A running download is stale when its last heartbeat lies more than 30
/// seconds back; it is then made pending again.
pub fn is_stale(download: &Download, now: i64) -> (stale: bool)
    ensures
        stale == (download.status == DownloadStatus::Downloading && now - download.updated_at
            > STALE_THRESHOLD_SECS),
{
    match download.status {
        DownloadStatus::Downloading => now as i128 - download.updated_at as i128
            > STALE_THRESHOLD_SECS as i128,
        _ => false,
    }
}

/// The range that is asked of the server: from the first byte that is
/// missing, where some are there already.
pub fn range_header(downloaded_bytes: i64) -> (header: Option<String>)
    ensures
        match header {
            Some(h) => downloaded_bytes > 0 && h@ == "bytes="@ + decimal_text(
                downloaded_bytes as nat,
            ) + "-"@,
            None => downloaded_bytes <= 0,
        },
{
    if downloaded_bytes > 0 {
        let mut h = "bytes=".to_owned();
        h.append(decimal(downloaded_bytes as u64).as_str());
        h.append("-");
        Some(h)
    } else {
        None
    }
}

/// Tells whether the status of the response lets the download go on: a
/// success, or partial content.
pub fn accepts_status(code: u16) -> (ok: bool)
    ensures
        ok == (200 <= code < 300),
{
    200 <= code && code < 300
}

/// The size of the whole file: what the server announces, for a fresh
/// download, and what the record holds, for a resumed one. A fresh download
/// without an announced size fails.
pub fn total_size(downloaded_bytes: i64, content_length: Option<u64>, recorded_total: i64) -> (result:
    AppResult<u64>)
    ensures
        match result {
            Ok(total) => if downloaded_bytes == 0 {
                content_length == Some(total)
            } else if recorded_total >= 0 {
                total == recorded_total
            } else {
                total == 0
            },
            Err(e) => e is Download && downloaded_bytes == 0 && content_length is None,
        },
{
    if downloaded_bytes == 0 {
        match content_length {
            Some(total) => Ok(total),
            None => Err(
                AppError::Download("Server didn't provide content length".to_owned()),
            ),
        }
    } else if recorded_total >= 0 {
        Ok(recorded_total as u64)
    } else {
        Ok(0)
    }
}

/// How a download ended.
#[derive(Clone, Copy, Debug, PartialEq, Eq, Structural)]
pub enum DownloadResult {
    Completed,
    Paused,
    Cancelled,
}

/// What an interruption of a running download comes to: a paused download
/// keeps its file and stores its progress, a cancelled one ends, and with any
/// other status the download goes on.
pub fn on_interrupt(status: DownloadStatus) -> (result: Option<DownloadResult>)
    ensures
        result == (match status {
            DownloadStatus::Paused => Some(DownloadResult::Paused),
            DownloadStatus::Cancelled => Some(DownloadResult::Cancelled),
            _ => None,
        }),
{
    match status {
        DownloadStatus::Paused => Some(DownloadResult::Paused),
        DownloadStatus::Cancelled => Some(DownloadResult::Cancelled),
        _ => None,
    }
}

/// The partial file of a cancelled download is deleted; that of a paused
/// or failed one stays.
pub fn deletes_partial_file(result: DownloadResult) -> (delete: bool)
    ensures
        delete == (result == DownloadResult::Cancelled),
{
    match result {
        DownloadResult::Cancelled => true,
        _ => false,
    }
}

/// The speed of a download in bytes a second, over `elapsed_millis`
/// milliseconds; 0 where no time has passed.
pub fn speed_bps(bytes: u64, elapsed_millis: u64) -> (speed: u64)
    ensures
        speed == if elapsed_millis == 0 {
            0
        } else if bytes * 1000 / (elapsed_millis as int) > u64::MAX {
            u64::MAX as int
        } else {
            bytes * 1000 / (elapsed_millis as int)
        },
{
    if elapsed_millis == 0 {
        0
    } else {
        let speed: u128 = bytes as u128 * 1000 / elapsed_millis as u128;
        if speed > u64::MAX as u128 {
            u64::MAX
        } else {
            speed as u64
        }
    }
}

/// The checksum of the file is the one expected, whatever the case of
/// their letters.
pub fn checksum_matches(actual: &str, expected: &str) -> (same: bool)
    ensures
        same == (lowercase_of(actual@) == lowercase_of(expected@)),
{
    let a = to_lowercase(actual);
    let e = to_lowercase(expected);
    str_eq(a.as_str(), e.as_str())
}

/// Tells whether the file is a model: its path ends with `.gguf`.
pub fn is_model_file(path: &str) -> (model: bool)
    ensures
        model == ends_with(path.spec_bytes(), ".gguf".spec_bytes()),
{
    has_suffix(path.as_bytes(), ".gguf".as_bytes())
}

/// Tells whether the file is an archive to be unpacked: its path ends with
/// `.zip`.
pub fn is_archive(path: &str) -> (archive: bool)
    ensures
        archive == ends_with(path.spec_bytes(), ".zip".spec_bytes()),
{
    has_suffix(path.as_bytes(), ".zip".as_bytes())
}

} // verus!
