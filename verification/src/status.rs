//! Progress reporting: elapsed time, counts of downloads by state, the event
//! log, and the names and sizes of streamed files.
use vstd::prelude::*;
use crate::queue::{Download, DownloadStateView, DownloadView, downloads_view};
use crate::text::{copy_str, pad_left, pad_left_string, signed_decimal, signed_decimal_string};

verus! {

/// Progress of a streamed download.
#[derive(Debug)]
pub enum DownloadProgress {
    Started,
    Progress { current: usize, total: usize },
    Finished,
}

/// Quotient of a division rounded toward zero (the `/` of Rust integers).
pub open spec fn div_toward_zero(a: int, b: int) -> int {
    if a >= 0 { a / b } else { -((-a) / b) }
}

/// Remainder of a division rounded toward zero (the `%` of Rust integers).
pub open spec fn rem_toward_zero(a: int, b: int) -> int {
    if a >= 0 { a % b } else { -((-a) % b) }
}

/// Seconds as minutes and seconds, each padded with `0` to two characters:
/// `MMmSSs`.
pub open spec fn min_sec_text(secs: int) -> Seq<char> {
    pad_left(signed_decimal(div_toward_zero(secs, 60)), '0', 2) + "m"@
        + pad_left(signed_decimal(rem_toward_zero(secs, 60)), '0', 2) + "s"@
}

/// Seconds as minutes and seconds, such as `02m05s`.
pub fn secs_to_min_sec(secs: i32) -> (r: String)
    ensures
        r@ == min_sec_text(secs as int),
{
    let s = secs as i64;
    let (q, m): (i64, i64) = if s >= 0 { (s / 60, s % 60) } else { (-((-s) / 60), -((-s) % 60)) };
    let qs = signed_decimal_string(q);
    let ms = signed_decimal_string(m);
    let mut r = pad_left_string(qs.as_str(), '0', 2);
    r.append("m");
    let mp = pad_left_string(ms.as_str(), '0', 2);
    r.append(mp.as_str());
    r.append("s");
    r
}

/// How many downloads are in each group of states.
#[derive(Debug)]
pub struct DownloadCounts {
    /// Not started yet (queued or handed to a worker).
    pub waiting: usize,
    pub downloading: usize,
    pub post_processing: usize,
    /// Failed or skipped.
    pub errors: usize,
    pub completed: usize,
}

/// Number of downloads whose state satisfies `p`.
pub open spec fn count_where(q: Seq<DownloadView>, p: spec_fn(DownloadStateView) -> bool) -> nat
    decreases q.len(),
{
    if q.len() == 0 {
        0
    } else {
        count_where(q.drop_last(), p) + if p(q.last().state) { 1nat } else { 0nat }
    }
}

/// Not started yet.
pub open spec fn is_waiting(s: DownloadStateView) -> bool {
    s is Queued || s is Lock
}

/// Being downloaded.
pub open spec fn is_downloading(s: DownloadStateView) -> bool {
    s is Downloading
}

/// Being tagged.
pub open spec fn is_post(s: DownloadStateView) -> bool {
    s is Post
}

/// Failed or skipped.
pub open spec fn is_error(s: DownloadStateView) -> bool {
    s is Error
}

/// Finished.
pub open spec fn is_done(s: DownloadStateView) -> bool {
    s is Done
}

/// Failed, skipped or finished: nothing more will happen to it.
pub open spec fn is_over(s: DownloadStateView) -> bool {
    s is Error || s is Done
}

/// Counts the downloads by state, and tells whether all are over.
pub fn count_states(downloads: &Vec<Download>) -> (r: (DownloadCounts, bool))
    ensures
        r.0.waiting == count_where(downloads_view(downloads@), |s: DownloadStateView| is_waiting(s)),
        r.0.downloading == count_where(downloads_view(downloads@), |s: DownloadStateView| is_downloading(s)),
        r.0.post_processing == count_where(downloads_view(downloads@), |s: DownloadStateView| is_post(s)),
        r.0.errors == count_where(downloads_view(downloads@), |s: DownloadStateView| is_error(s)),
        r.0.completed == count_where(downloads_view(downloads@), |s: DownloadStateView| is_done(s)),
        r.1 == (forall|i: int| 0 <= i < downloads@.len() ==> is_over(#[trigger] downloads@[i]@.state)),
{
    let ghost q = downloads_view(downloads@);
    let mut c = DownloadCounts { waiting: 0, downloading: 0, post_processing: 0, errors: 0, completed: 0 };
    let mut all_over = true;
    let mut i: usize = 0;
    while i < downloads.len()
        invariant
            i <= downloads@.len(),
            q == downloads_view(downloads@),
            c.waiting == count_where(q.subrange(0, i as int), |s: DownloadStateView| is_waiting(s)),
            c.downloading == count_where(q.subrange(0, i as int), |s: DownloadStateView| is_downloading(s)),
            c.post_processing == count_where(q.subrange(0, i as int), |s: DownloadStateView| is_post(s)),
            c.errors == count_where(q.subrange(0, i as int), |s: DownloadStateView| is_error(s)),
            c.completed == count_where(q.subrange(0, i as int), |s: DownloadStateView| is_done(s)),
            c.waiting <= i && c.downloading <= i && c.post_processing <= i && c.errors <= i && c.completed <= i,
            all_over == (forall|j: int| 0 <= j < i ==> is_over(#[trigger] downloads@[j]@.state)),
        decreases downloads.len() - i,
    {
        proof {
            let pre = q.subrange(0, i as int);
            let next = q.subrange(0, i + 1);
            assert(next.drop_last() =~= pre);
            assert(next.last() == downloads@[i as int]@);
        }
        match &downloads[i].state {
            crate::queue::DownloadState::Queued | crate::queue::DownloadState::Lock => {
                c.waiting = c.waiting + 1;
                all_over = false;
            },
            crate::queue::DownloadState::Downloading(_, _) => {
                c.downloading = c.downloading + 1;
                all_over = false;
            },
            crate::queue::DownloadState::Post => {
                c.post_processing = c.post_processing + 1;
                all_over = false;
            },
            crate::queue::DownloadState::Error(_) => {
                c.errors = c.errors + 1;
            },
            crate::queue::DownloadState::Done => {
                c.completed = c.completed + 1;
            },
        }
        i += 1;
    }
    proof {
        assert(q.subrange(0, i as int) =~= q);
    }
    (c, all_over)
}

/// The groups of states split the downloads: the counts add up to the total.
pub proof fn lemma_counts_partition(q: Seq<DownloadView>)
    ensures
        count_where(q, |s: DownloadStateView| is_waiting(s)) + count_where(q, |s: DownloadStateView| is_downloading(s))
            + count_where(q, |s: DownloadStateView| is_post(s)) + count_where(q, |s: DownloadStateView| is_error(s))
            + count_where(q, |s: DownloadStateView| is_done(s)) == q.len(),
    decreases q.len(),
{
    if q.len() > 0 {
        lemma_counts_partition(q.drop_last());
    }
}

/// All downloads are over exactly when none is waiting, downloading or being
/// tagged, and exactly when every download has failed or finished: the errors
/// and completed downloads then make up the whole list.
pub proof fn lemma_all_over_iff_nothing_left(q: Seq<DownloadView>)
    ensures
        (forall|i: int| 0 <= i < q.len() ==> is_over(#[trigger] q[i].state)) <==> (
            count_where(q, |s: DownloadStateView| is_waiting(s)) == 0
            && count_where(q, |s: DownloadStateView| is_downloading(s)) == 0
            && count_where(q, |s: DownloadStateView| is_post(s)) == 0),
        (forall|i: int| 0 <= i < q.len() ==> is_over(#[trigger] q[i].state)) <==> (
            count_where(q, |s: DownloadStateView| is_error(s)) + count_where(q, |s: DownloadStateView| is_done(s)) == q.len()),
    decreases q.len(),
{
    lemma_counts_partition(q);
    if q.len() > 0 {
        let p = q.drop_last();
        lemma_all_over_iff_nothing_left(p);
        assert forall|i: int| 0 <= i < p.len() implies p[i] == q[i] by {}
        let last = q.last();
        assert(last == q[q.len() - 1]);
        if forall|i: int| 0 <= i < q.len() ==> is_over(#[trigger] q[i].state) {
            assert(is_over(q[q.len() - 1].state));
            assert forall|i: int| 0 <= i < p.len() implies is_over(#[trigger] p[i].state) by {
                assert(is_over(q[i].state));
            }
        }
        if (forall|i: int| 0 <= i < p.len() ==> is_over(#[trigger] p[i].state)) && is_over(last.state) {
            assert forall|i: int| 0 <= i < q.len() implies is_over(#[trigger] q[i].state) by {
                if i < p.len() {
                    assert(is_over(p[i].state));
                }
            }
        }
    }
}

/// Drops the oldest messages of the event log until at most `limit` remain.
pub fn keep_latest(messages: &mut Vec<String>, limit: usize)
    ensures
        final(messages)@ == if old(messages)@.len() > limit {
            old(messages)@.skip(old(messages)@.len() - limit)
        } else {
            old(messages)@
        },
{
    let ghost start = messages@;
    while messages.len() > limit
        invariant
            messages@.len() <= start.len(),
            start.len() > limit ==> messages@.len() >= limit,
            start.len() <= limit ==> messages@ == start,
            messages@ == start.skip(start.len() - messages@.len()),
        decreases messages.len(),
    {
        let ghost before = messages@;
        messages.remove(0);
        proof {
            assert(messages@ =~= start.skip(start.len() - messages@.len()));
        }
    }
    proof {
        if start.len() <= limit {
            assert(start.skip(0) =~= start);
        }
    }
}

/// Number of header bytes of a Spotify Ogg file that are not audio.
pub const SPOTIFY_OGG_HEADER_END: u64 = 0xA7;

/// Size of the audio in a stream of `size` bytes, without the Ogg header.
pub fn audio_size(size: usize, is_ogg: bool) -> (r: usize)
    requires
        is_ogg ==> size >= SPOTIFY_OGG_HEADER_END,
    ensures
        r == if is_ogg { size - SPOTIFY_OGG_HEADER_END } else { size as int },
{
    if is_ogg {
        size - SPOTIFY_OGG_HEADER_END as usize
    } else {
        size
    }
}

/// Name of a downloaded file: `artist - title` with the extension `mp3` or `ogg`.
pub fn download_file_name(artist: &str, title: &str, mp3: bool) -> (r: String)
    ensures
        r@ == artist@ + " - "@ + title@ + if mp3 { ".mp3"@ } else { ".ogg"@ },
{
    let mut r = copy_str(artist);
    r.append(" - ");
    r.append(title);
    if mp3 {
        r.append(".mp3");
    } else {
        r.append(".ogg");
    }
    r
}

} // verus!
