//! The transfer orchestrator's job state machine.
//!
//! A `RustleDownloader` owns all job-wide state: the validated target, the
//! output directory, the configured parallelism, the probed capability
//! information, one progress slot per planned range, and the job status.
//! Every transition is a verified method with an exact contract; the
//! network and file I/O that drive the transitions live outside the
//! library and share the state behind a single exclusive lock.

use vstd::prelude::*;

use crate::errors::{FetchError, InvalidPath, InvalidUrl, OrchestratorError};
use crate::fetch::{compute_speed, spec_speed, PartDownloadInfo};
use crate::headers::ResponseHeaderInfo;
use crate::planner::{plan_is_ranged, plan_ranges, ranges_follow_plan, ByteRange, RangePlan};
use crate::target::{url_accepts, url_last_segment, url_text, ValidUrl};

verus! {

/// The status of a download job.
///
/// `Idle` until started, `Downloading` and `Paused` while active, `Done`
/// after a successful assembly and write, `Error` terminal from any active
/// state.
#[derive(Debug, Clone, Copy, PartialEq, Eq, Structural)]
pub enum DownloadStatus {
    /// The job has not been started.
    Idle,
    /// Parts are being fetched.
    Downloading,
    /// Fetching is suspended cooperatively.
    Paused,
    /// The payload was assembled and persisted.
    Done,
    /// The job failed; no resume-after-error state is retained.
    Error,
}

impl Default for DownloadStatus {
    /// A fresh job is idle.
    fn default() -> (r: Self)
        ensures
            r is Idle,
    {
        DownloadStatus::Idle
    }
}

/// The status transition on `pause`: only an active download is paused;
/// every other status is left as it is, so pausing is idempotent.
pub open spec fn pause_status(s: DownloadStatus) -> DownloadStatus {
    if s is Downloading {
        DownloadStatus::Paused
    } else {
        s
    }
}

/// The status transition on `resume`: only a paused download is resumed;
/// every other status is left as it is, so resuming is idempotent.
pub open spec fn resume_status(s: DownloadStatus) -> DownloadStatus {
    if s is Paused {
        DownloadStatus::Downloading
    } else {
        s
    }
}

/// A fresh progress slot.
pub open spec fn zero_progress() -> PartDownloadInfo {
    PartDownloadInfo { downloaded_bytes: 0, download_speed: 0 }
}

/// The progress vector after one chunk of `len` bytes is recorded for part
/// `part` with `ms` milliseconds of active transfer time elapsed: the
/// part's byte count grows by exactly the chunk's length, its speed is
/// recomputed over active time, and no other slot changes.
pub open spec fn spec_record_progress(
    pv: Seq<PartDownloadInfo>,
    part: int,
    len: usize,
    ms: u64,
) -> Seq<PartDownloadInfo>
    recommends
        0 <= part < pv.len(),
        pv[part].downloaded_bytes + len <= usize::MAX,
{
    pv.update(
        part,
        PartDownloadInfo {
            downloaded_bytes: (pv[part].downloaded_bytes + len) as usize,
            download_speed: spec_speed(pv[part].downloaded_bytes + len, ms as int) as u64,
        },
    )
}

/// A download job: the unit of ownership for all transfer state.
pub struct RustleDownloader {
    url: Option<ValidUrl>,
    out_dir: Option<String>,
    max_parallel_connections: u8,
    get_headers_info: Option<ResponseHeaderInfo>,
    progress_vec: Vec<PartDownloadInfo>,
    download_status: DownloadStatus,
}

impl RustleDownloader {
    /// The job's status.
    pub closed spec fn spec_status(&self) -> DownloadStatus {
        self.download_status
    }

    /// The per-part progress slots.
    pub closed spec fn spec_progress(&self) -> Seq<PartDownloadInfo> {
        self.progress_vec@
    }

    /// The probed capability information, once recorded.
    pub closed spec fn spec_header_info(&self) -> Option<ResponseHeaderInfo> {
        self.get_headers_info
    }

    /// The validated target, once set.
    pub closed spec fn spec_url(&self) -> Option<ValidUrl> {
        self.url
    }

    /// The output directory, once set.
    pub closed spec fn spec_out_dir(&self) -> Option<Seq<char>> {
        self.out_dir.deep_view()
    }

    /// The configured maximum number of parallel connections.
    pub closed spec fn spec_max_parallel(&self) -> u8 {
        self.max_parallel_connections
    }

    /// Structural validity: a job always carries a positive parallelism.
    pub open spec fn wf(&self) -> bool {
        self.spec_max_parallel() >= 1
    }

    /// The job's configuration (target, directory, parallelism, probe
    /// record) is the same in both states.
    pub open spec fn same_config(&self, other: &Self) -> bool {
        &&& self.spec_url() == other.spec_url()
        &&& self.spec_out_dir() == other.spec_out_dir()
        &&& self.spec_max_parallel() == other.spec_max_parallel()
        &&& self.spec_header_info() == other.spec_header_info()
    }

    /// Creates an idle job. Succeeds exactly when the requested parallelism
    /// is positive.
    pub fn new(max_parallel_connections: u8) -> (r: Result<Self, String>)
        ensures
            r is Ok <==> max_parallel_connections >= 1,
            r matches Ok(d) ==> {
                &&& d.wf()
                &&& d.spec_status() is Idle
                &&& d.spec_url() is None
                &&& d.spec_out_dir() is None
                &&& d.spec_header_info() is None
                &&& d.spec_progress() == Seq::<PartDownloadInfo>::empty()
                &&& d.spec_max_parallel() == max_parallel_connections
            },
    {
        if max_parallel_connections == 0 {
            return Err(String::from_str("the number of parallel connections must be positive"));
        }
        Ok(
            RustleDownloader {
                url: None,
                out_dir: None,
                max_parallel_connections,
                get_headers_info: None,
                progress_vec: Vec::new(),
                download_status: DownloadStatus::Idle,
            },
        )
    }

    /// Sets the target URL. Succeeds exactly on strings the URL parser
    /// accepts; on failure the job is unchanged.
    pub fn set_url(&mut self, url: &str) -> (r: Result<(), InvalidUrl>)
        ensures
            r is Ok <==> url_accepts(url@),
            r is Ok ==> {
                &&& final(self).spec_url() matches Some(u)
                &&& u@ == url_text(url@)
                &&& u.spec_last_segment() == url_last_segment(url@)
                &&& u.wf()
            },
            r is Err ==> final(self).spec_url() == old(self).spec_url(),
            final(self).spec_status() == old(self).spec_status(),
            final(self).spec_progress() == old(self).spec_progress(),
            final(self).spec_out_dir() == old(self).spec_out_dir(),
            final(self).spec_max_parallel() == old(self).spec_max_parallel(),
            final(self).spec_header_info() == old(self).spec_header_info(),
    {
        match ValidUrl::new(url) {
            Ok(u) => {
                self.url = Some(u);
                Ok(())
            },
            Err(e) => Err(e),
        }
    }

    /// Sets the output directory. Succeeds exactly on non-empty paths; on
    /// failure the job is unchanged.
    pub fn set_out_dir(&mut self, out_dir: &str) -> (r: Result<(), InvalidPath>)
        ensures
            r is Ok <==> out_dir@.len() >= 1,
            r is Ok ==> final(self).spec_out_dir() == Some(out_dir@),
            r is Err ==> final(self).spec_out_dir() == old(self).spec_out_dir(),
            final(self).spec_status() == old(self).spec_status(),
            final(self).spec_progress() == old(self).spec_progress(),
            final(self).spec_url() == old(self).spec_url(),
            final(self).spec_max_parallel() == old(self).spec_max_parallel(),
            final(self).spec_header_info() == old(self).spec_header_info(),
    {
        if out_dir.is_empty() {
            return Err(InvalidPath(String::from_str("the output directory must not be empty")));
        }
        self.out_dir = Some(out_dir.to_owned());
        Ok(())
    }

    /// Records the capability information derived from a probe.
    pub fn record_probe(&mut self, info: ResponseHeaderInfo)
        ensures
            final(self).spec_header_info() == Some(info),
            final(self).spec_status() == old(self).spec_status(),
            final(self).spec_progress() == old(self).spec_progress(),
            final(self).spec_url() == old(self).spec_url(),
            final(self).spec_out_dir() == old(self).spec_out_dir(),
            final(self).spec_max_parallel() == old(self).spec_max_parallel(),
    {
        self.get_headers_info = Some(info);
    }

    /// The current download status.
    pub fn get_status(&self) -> (r: DownloadStatus)
        ensures
            r == self.spec_status(),
    {
        self.download_status
    }

    /// The recorded capability information, if a probe has run.
    pub fn get_file_info(&self) -> (r: Option<ResponseHeaderInfo>)
        ensures
            r is Some <==> self.spec_header_info() is Some,
            r matches Some(h) ==> self.spec_header_info() matches Some(g) && {
                &&& h.support_partial == g.support_partial
                &&& h.content_length == g.content_length
                &&& h.content_type.deep_view() == g.content_type.deep_view()
                &&& h.file_name.deep_view() == g.file_name.deep_view()
            },
    {
        match &self.get_headers_info {
            Some(h) => Some(h.clone()),
            None => None,
        }
    }

    /// The validated target, once set.
    pub fn get_url(&self) -> (r: Option<&ValidUrl>)
        ensures
            r is Some <==> self.spec_url() is Some,
            r matches Some(u) ==> self.spec_url() == Some(*u),
    {
        match &self.url {
            Some(u) => Some(u),
            None => None,
        }
    }

    /// The output directory, once set.
    pub fn get_out_dir(&self) -> (r: Option<&str>)
        ensures
            r.deep_view() == self.spec_out_dir(),
    {
        match &self.out_dir {
            Some(d) => Some(d.as_str()),
            None => None,
        }
    }

    /// A point-in-time snapshot of every part's progress.
    pub fn get_progress_vec(&self) -> (r: Vec<PartDownloadInfo>)
        ensures
            r@ == self.spec_progress(),
    {
        let n = self.progress_vec.len();
        let mut r: Vec<PartDownloadInfo> = Vec::new();
        let mut i: usize = 0;
        while i < n
            invariant
                0 <= i <= n,
                n == self.progress_vec@.len(),
                r@ == self.progress_vec@.subrange(0, i as int),
            decreases n - i,
        {
            r.push(self.progress_vec[i]);
            assert(r@ =~= self.progress_vec@.subrange(0, i + 1));
            i = i + 1;
        }
        assert(r@ =~= self.spec_progress());
        r
    }

    /// A consistent point-in-time read of the progress vector and the
    /// status, for reporting.
    pub fn snapshot(&self) -> (r: (Vec<PartDownloadInfo>, DownloadStatus))
        ensures
            r.0@ == self.spec_progress(),
            r.1 == self.spec_status(),
    {
        (self.get_progress_vec(), self.download_status)
    }

    /// Pauses the job: an active download becomes paused; any other status
    /// (including an already paused one) is untouched, and no progress is
    /// lost.
    pub fn pause(&mut self)
        ensures
            final(self).spec_status() == pause_status(old(self).spec_status()),
            final(self).spec_progress() == old(self).spec_progress(),
            final(self).same_config(old(self)),
    {
        match self.download_status {
            DownloadStatus::Downloading => {
                self.download_status = DownloadStatus::Paused;
            },
            _ => {},
        }
    }

    /// Resumes the job: a paused download becomes active; any other status
    /// is untouched, and no progress is lost.
    pub fn resume(&mut self)
        ensures
            final(self).spec_status() == resume_status(old(self).spec_status()),
            final(self).spec_progress() == old(self).spec_progress(),
            final(self).same_config(old(self)),
    {
        match self.download_status {
            DownloadStatus::Paused => {
                self.download_status = DownloadStatus::Downloading;
            },
            _ => {},
        }
    }

    /// Starts the job: requires it to be probed, targeted, and given an
    /// output directory, failing with a precondition error (and changing
    /// nothing) otherwise. On success the range plan is computed, one fresh
    /// progress slot is allocated per planned part, and the status becomes
    /// `Downloading`.
    pub fn start(&mut self) -> (r: Result<RangePlan, OrchestratorError>)
        requires
            old(self).wf(),
        ensures
            r is Ok <==> (old(self).spec_header_info() is Some && old(self).spec_url() is Some
                && old(self).spec_out_dir() is Some),
            r matches Err(e) ==> {
                &&& e is PreconditionNotMet
                &&& final(self).spec_status() == old(self).spec_status()
                &&& final(self).spec_progress() == old(self).spec_progress()
                &&& final(self).same_config(old(self))
            },
            r matches Ok(plan) ==> old(self).spec_header_info() matches Some(h) && {
                &&& (plan is Whole <==> !plan_is_ranged(h.content_length, h.support_partial))
                &&& plan matches RangePlan::Ranges(v) ==> h.content_length matches Some(len)
                    && ranges_follow_plan(v@, len, old(self).spec_max_parallel() as u64)
                &&& final(self).spec_status() is Downloading
                &&& final(self).spec_progress().len() == spec_plan_parts(plan)
                &&& forall|j: int|
                    0 <= j < final(self).spec_progress().len() ==> final(self).spec_progress()[j]
                        == zero_progress()
                &&& final(self).same_config(old(self))
            },
    {
        if self.get_headers_info.is_none() || self.url.is_none() || self.out_dir.is_none() {
            return Err(OrchestratorError::PreconditionNotMet);
        }
        let h = self.get_headers_info.as_ref().unwrap();
        let plan = plan_ranges(h.content_length, self.max_parallel_connections, h.support_partial);
        let parts: usize = match &plan {
            RangePlan::Whole => 1,
            RangePlan::Ranges(v) => v.len(),
        };
        let mut pv: Vec<PartDownloadInfo> = Vec::new();
        let mut i: usize = 0;
        while i < parts
            invariant
                0 <= i <= parts,
                pv@.len() == i,
                forall|j: int| 0 <= j < i ==> pv@[j] == zero_progress(),
            decreases parts - i,
        {
            pv.push(PartDownloadInfo { downloaded_bytes: 0, download_speed: 0 });
            i = i + 1;
        }
        self.progress_vec = pv;
        self.download_status = DownloadStatus::Downloading;
        Ok(plan)
    }

    /// Records one received chunk for part `part_index`: the part's byte
    /// count grows by exactly the chunk's length (monotonically — bytes are
    /// never lost or counted twice), its speed is recomputed over the
    /// active transfer time, and nothing else changes.
    pub fn record_chunk(&mut self, part_index: usize, chunk_len: usize, active_ms: u64)
        requires
            part_index < old(self).spec_progress().len(),
            old(self).spec_progress()[part_index as int].downloaded_bytes + chunk_len
                <= usize::MAX,
        ensures
            final(self).spec_progress() == spec_record_progress(
                old(self).spec_progress(),
                part_index as int,
                chunk_len,
                active_ms,
            ),
            final(self).spec_status() == old(self).spec_status(),
            final(self).same_config(old(self)),
    {
        let old_bytes = self.progress_vec[part_index].downloaded_bytes;
        let new_bytes = old_bytes + chunk_len;
        let speed = compute_speed(new_bytes, active_ms);
        self.progress_vec[part_index] = PartDownloadInfo {
            downloaded_bytes: new_bytes,
            download_speed: speed,
        };
    }

    /// Marks the job done, after the assembled payload has been persisted.
    pub fn finish(&mut self)
        ensures
            final(self).spec_status() is Done,
            final(self).spec_progress() == old(self).spec_progress(),
            final(self).same_config(old(self)),
    {
        self.download_status = DownloadStatus::Done;
    }

    /// Marks the job failed; reachable from any state.
    pub fn fail(&mut self)
        ensures
            final(self).spec_status() is Error,
            final(self).spec_progress() == old(self).spec_progress(),
            final(self).same_config(old(self)),
    {
        self.download_status = DownloadStatus::Error;
    }
}

/// The number of parts a plan fans out to: one for a whole-resource
/// request, one per range otherwise.
pub open spec fn spec_plan_parts(plan: RangePlan) -> int {
    match plan {
        RangePlan::Whole => 1,
        RangePlan::Ranges(v) => v@.len() as int,
    }
}

/// The sum of all parts' current speeds, in bytes per second.
pub open spec fn spec_total_speed(pv: Seq<PartDownloadInfo>) -> int
    decreases pv.len(),
{
    if pv.len() == 0 {
        0
    } else {
        spec_total_speed(pv.drop_last()) + pv.last().download_speed
    }
}

/// The sum of all parts' downloaded byte counts.
pub open spec fn spec_total_downloaded(pv: Seq<PartDownloadInfo>) -> int
    decreases pv.len(),
{
    if pv.len() == 0 {
        0
    } else {
        spec_total_downloaded(pv.drop_last()) + pv.last().downloaded_bytes
    }
}

impl RustleDownloader {
    /// The aggregate download speed published to reporting consumers: the
    /// sum of all parts' current speeds, saturating at `u64::MAX`.
    pub fn total_speed(&self) -> (r: u64)
        ensures
            r == if spec_total_speed(self.spec_progress()) > u64::MAX {
                u64::MAX as int
            } else {
                spec_total_speed(self.spec_progress())
            },
    {
        let n = self.progress_vec.len();
        let mut acc: u64 = 0;
        let mut i: usize = 0;
        while i < n
            invariant
                0 <= i <= n,
                n == self.spec_progress().len(),
                acc == if spec_total_speed(self.spec_progress().subrange(0, i as int))
                    > u64::MAX {
                    u64::MAX as int
                } else {
                    spec_total_speed(self.spec_progress().subrange(0, i as int))
                },
            decreases n - i,
        {
            let s = self.progress_vec[i].download_speed;
            proof {
                let pre = self.spec_progress().subrange(0, i as int);
                let ext = self.spec_progress().subrange(0, i + 1);
                assert(ext.drop_last() =~= pre);
                lemma_total_speed_nonneg(pre);
            }
            acc = acc.saturating_add(s);
            i = i + 1;
        }
        assert(self.spec_progress().subrange(0, n as int) =~= self.spec_progress());
        acc
    }

    /// The aggregate number of bytes downloaded across all parts,
    /// saturating at `u64::MAX`.
    pub fn total_downloaded(&self) -> (r: u64)
        ensures
            r == if spec_total_downloaded(self.spec_progress()) > u64::MAX {
                u64::MAX as int
            } else {
                spec_total_downloaded(self.spec_progress())
            },
    {
        let n = self.progress_vec.len();
        let mut acc: u64 = 0;
        let mut i: usize = 0;
        while i < n
            invariant
                0 <= i <= n,
                n == self.spec_progress().len(),
                acc == if spec_total_downloaded(self.spec_progress().subrange(0, i as int))
                    > u64::MAX {
                    u64::MAX as int
                } else {
                    spec_total_downloaded(self.spec_progress().subrange(0, i as int))
                },
            decreases n - i,
        {
            let b = self.progress_vec[i].downloaded_bytes;
            proof {
                let pre = self.spec_progress().subrange(0, i as int);
                let ext = self.spec_progress().subrange(0, i + 1);
                assert(ext.drop_last() =~= pre);
                lemma_total_downloaded_nonneg(pre);
            }
            acc = acc.saturating_add(b as u64);
            i = i + 1;
        }
        assert(self.spec_progress().subrange(0, n as int) =~= self.spec_progress());
        acc
    }
}

/// Concatenates the part buffers strictly in plan order (not completion
/// order) into one contiguous buffer.
pub fn assemble_parts(parts: &Vec<Vec<u8>>) -> (r: Vec<u8>)
    ensures
        r@ == parts.deep_view().flatten(),
{
    let n = parts.len();
    let mut r: Vec<u8> = Vec::new();
    let mut i: usize = 0;
    while i < n
        invariant
            0 <= i <= n,
            n == parts@.len(),
            r@ == parts.deep_view().subrange(0, i as int).flatten(),
        decreases n - i,
    {
        crate::fetch::append_chunk(&mut r, &parts[i]);
        proof {
            let pre = parts.deep_view().subrange(0, i as int);
            let ext = parts.deep_view().subrange(0, i + 1);
            assert(ext =~= pre.push(parts.deep_view()[i as int]));
            pre.lemma_flatten_push(parts.deep_view()[i as int]);
            assert(parts.deep_view()[i as int] == parts@[i as int]@);
        }
        i = i + 1;
    }
    assert(parts.deep_view().subrange(0, n as int) =~= parts.deep_view());
    r
}

/// The index of the first failed part result at or after `i`, or the
/// sequence's length if every one from `i` on succeeded.
pub open spec fn first_err_from(rs: Seq<Result<Vec<u8>, FetchError>>, i: int) -> int
    recommends
        0 <= i <= rs.len(),
    decreases rs.len() - i,
{
    if i < 0 || i >= rs.len() {
        rs.len() as int
    } else if rs[i] is Err {
        i
    } else {
        first_err_from(rs, i + 1)
    }
}

/// Joins the part fetchers' results, in plan order. Succeeds with every
/// part's buffer exactly when every part succeeded; otherwise the whole job
/// fails with the first (in plan order) part failure, and the partial
/// buffers are discarded.
pub fn collect_part_results(results: Vec<Result<Vec<u8>, FetchError>>) -> (r: Result<
    Vec<Vec<u8>>,
    OrchestratorError,
>)
    ensures
        r is Ok <==> first_err_from(results@, 0) == results@.len(),
        r matches Ok(parts) ==> parts@.len() == results@.len() && forall|j: int|
            0 <= j < results@.len() ==> (#[trigger] parts@[j])@ == results@[j]->Ok_0@,
        r matches Err(e) ==> {
            let k = first_err_from(results@, 0);
            &&& 0 <= k < results@.len()
            &&& e matches OrchestratorError::PartFailed(f)
            &&& f == results@[k]->Err_0
        },
{
    let ghost all = results@;
    let mut rest = results;
    let n = rest.len();
    let mut parts: Vec<Vec<u8>> = Vec::new();
    let mut i: usize = 0;
    while rest.len() > 0
        invariant
            all == results@,
            0 <= i <= n,
            n == all.len(),
            all.len() == i + rest@.len(),
            rest@ == all.subrange(i as int, all.len() as int),
            first_err_from(all, 0) == first_err_from(all, i as int),
            parts@.len() == i,
            forall|j: int| 0 <= j < i ==> (#[trigger] parts@[j])@ == all[j]->Ok_0@,
        decreases rest@.len(),
    {
        let head = rest.remove(0);
        assert(head == all[i as int]);
        assert(rest@ =~= all.subrange(i + 1, all.len() as int));
        match head {
            Ok(buf) => {
                assert(all[i as int] is Ok);
                assert(first_err_from(all, i as int) == first_err_from(all, i + 1));
                parts.push(buf);
                i = i + 1;
            },
            Err(f) => {
                assert(all[i as int] is Err);
                assert(first_err_from(all, i as int) == i);
                return Err(OrchestratorError::PartFailed(f));
            },
        }
    }
    assert(first_err_from(all, i as int) == all.len());
    Ok(parts)
}

/// Ends ascend along a gap-free ascending range sequence.
proof fn lemma_ends_ascend(v: Seq<ByteRange>, i: int, j: int)
    requires
        forall|k: int| 0 <= k < v.len() ==> (#[trigger] v[k]).start <= v[k].end,
        forall|k: int| 0 <= k < v.len() - 1 ==> (#[trigger] v[k]).end + 1 == v[k + 1].start,
        0 <= i <= j < v.len(),
    ensures
        v[i].end <= v[j].end,
    decreases j - i,
{
    if i < j {
        lemma_ends_ascend(v, i, j - 1);
        assert(v[j - 1].end + 1 == v[j].start);
    }
}

/// Concatenating the part buffers in plan order reproduces the original
/// resource byte-for-byte, independent of the order in which the parts
/// actually completed: whenever the ranges are gap-free, ascending, start
/// at byte zero and end at the last byte, and each buffer holds exactly its
/// planned range of the payload, the concatenation is the payload.
pub proof fn lemma_assembly_round_trip(whole: Seq<u8>, v: Seq<ByteRange>, parts: Seq<Seq<u8>>)
    requires
        v.len() == parts.len(),
        v.len() >= 1,
        v[0].start == 0,
        forall|i: int| 0 <= i < v.len() ==> (#[trigger] v[i]).start <= v[i].end,
        forall|i: int| 0 <= i < v.len() - 1 ==> (#[trigger] v[i]).end + 1 == v[i + 1].start,
        v[v.len() - 1].end + 1 == whole.len(),
        forall|i: int|
            0 <= i < v.len() ==> #[trigger] parts[i] == whole.subrange(
                v[i].start as int,
                v[i].end + 1,
            ),
    ensures
        parts.flatten() == whole,
    decreases v.len(),
{
    if v.len() == 1 {
        assert(parts[0] == whole.subrange(0, whole.len() as int));
        assert(parts.drop_first() =~= Seq::<Seq<u8>>::empty());
        assert(parts.flatten() =~= parts.first() + parts.drop_first().flatten());
        assert(parts.flatten() =~= whole);
    } else {
        let m = v.len() - 1;
        let v2 = v.drop_last();
        let parts2 = parts.drop_last();
        let cut = v[m - 1].end + 1;
        assert(cut == v[m].start);
        assert(cut <= whole.len());
        let whole2 = whole.subrange(0, cut);
        assert forall|i: int| 0 <= i < v2.len() implies #[trigger] parts2[i] == whole2.subrange(
            v2[i].start as int,
            v2[i].end + 1,
        ) by {
            lemma_ends_ascend(v, i, m - 1);
            assert(v[i].end + 1 <= cut);
            assert(parts[i] == whole.subrange(v[i].start as int, v[i].end + 1));
            assert(whole2.subrange(v2[i].start as int, v2[i].end + 1) =~= whole.subrange(
                v[i].start as int,
                v[i].end + 1,
            ));
        }
        lemma_assembly_round_trip(whole2, v2, parts2);
        parts.lemma_flatten_and_flatten_alt_are_equivalent();
        parts2.lemma_flatten_and_flatten_alt_are_equivalent();
        assert(parts.flatten_alt() == parts2.flatten_alt() + parts.last());
        assert(parts.last() == whole.subrange(cut, whole.len() as int));
        assert(whole2 + whole.subrange(cut, whole.len() as int) =~= whole);
        assert(parts.flatten() =~= whole);
    }
}

/// Pausing and then resuming never strands a job: an active or paused
/// download is downloading again afterwards, and only an active download
/// is ever moved to `Paused`. Together with the `ensures` of `pause`,
/// `resume` and `record_chunk` — which leave every progress slot untouched
/// or strictly grow it — a pause/resume cycle neither loses nor duplicates
/// bytes already streamed.
pub proof fn lemma_pause_resume_cycle(s: DownloadStatus)
    ensures
        s is Downloading ==> resume_status(pause_status(s)) is Downloading,
        s is Paused ==> resume_status(pause_status(s)) is Downloading,
        pause_status(s) is Paused <==> (s is Downloading || s is Paused),
{
}

/// Per-part byte counters are monotonically non-decreasing under chunk
/// recording: recording a chunk grows the owning part's counter by exactly
/// the chunk's length and leaves every other counter unchanged.
pub proof fn lemma_progress_monotone(pv: Seq<PartDownloadInfo>, part: int, len: usize, ms: u64)
    requires
        0 <= part < pv.len(),
        pv[part].downloaded_bytes + len <= usize::MAX,
    ensures
        spec_record_progress(pv, part, len, ms).len() == pv.len(),
        spec_record_progress(pv, part, len, ms)[part].downloaded_bytes == pv[part].downloaded_bytes
            + len,
        forall|j: int|
            0 <= j < pv.len() && j != part ==> #[trigger] spec_record_progress(
                pv,
                part,
                len,
                ms,
            )[j] == pv[j],
        forall|j: int|
            0 <= j < pv.len() ==> (#[trigger] spec_record_progress(
                pv,
                part,
                len,
                ms,
            )[j]).downloaded_bytes >= pv[j].downloaded_bytes,
{
}

proof fn lemma_total_speed_nonneg(pv: Seq<PartDownloadInfo>)
    ensures
        spec_total_speed(pv) >= 0,
    decreases pv.len(),
{
    if pv.len() > 0 {
        lemma_total_speed_nonneg(pv.drop_last());
    }
}

proof fn lemma_total_downloaded_nonneg(pv: Seq<PartDownloadInfo>)
    ensures
        spec_total_downloaded(pv) >= 0,
    decreases pv.len(),
{
    if pv.len() > 0 {
        lemma_total_downloaded_nonneg(pv.drop_last());
    }
}

} // verus!
