//! The download queue shared by the user interface and the download workers,
//! and the scheduling of download jobs onto a bounded number of workers.
//!
//! Each is a state machine: a message or event goes in, the next state and
//! the message to send come out. The caller owns the channels and tasks.
use vstd::prelude::*;
use crate::config::{DownloaderConfig, DownloaderConfigView};

verus! {

/// Progress of one download.
#[derive(Debug, PartialEq, Eq)]
pub enum DownloadState {
    Queued,
    Lock,
    Downloading(usize, usize),
    Post,
    Done,
    Error(String),
}

/// Mathematical model of [`DownloadState`].
pub enum DownloadStateView {
    Queued,
    Lock,
    Downloading(usize, usize),
    Post,
    Done,
    Error(Seq<char>),
}

impl View for DownloadState {
    type V = DownloadStateView;

    open spec fn view(&self) -> DownloadStateView {
        match self {
            DownloadState::Queued => DownloadStateView::Queued,
            DownloadState::Lock => DownloadStateView::Lock,
            DownloadState::Downloading(r, t) => DownloadStateView::Downloading(*r, *t),
            DownloadState::Post => DownloadStateView::Post,
            DownloadState::Done => DownloadStateView::Done,
            DownloadState::Error(e) => DownloadStateView::Error(e@),
        }
    }
}

impl Clone for DownloadState {
    fn clone(&self) -> (r: Self)
        ensures
            r@ == self@,
    {
        match self {
            DownloadState::Queued => DownloadState::Queued,
            DownloadState::Lock => DownloadState::Lock,
            DownloadState::Downloading(r, t) => DownloadState::Downloading(*r, *t),
            DownloadState::Post => DownloadState::Post,
            DownloadState::Done => DownloadState::Done,
            DownloadState::Error(e) => DownloadState::Error(e.clone()),
        }
    }
}

impl DownloadState {
    /// Whether two states are the same.
    pub fn same_as(&self, other: &DownloadState) -> (b: bool)
        ensures
            b == (self@ == other@),
    {
        match (self, other) {
            (DownloadState::Queued, DownloadState::Queued) => true,
            (DownloadState::Lock, DownloadState::Lock) => true,
            (DownloadState::Downloading(a, b), DownloadState::Downloading(c, d)) => *a == *c && *b == *d,
            (DownloadState::Post, DownloadState::Post) => true,
            (DownloadState::Done, DownloadState::Done) => true,
            (DownloadState::Error(a), DownloadState::Error(b)) => {
                let r = a.eq(b);
                proof {
                    if r {
                        assert(self@ == other@);
                    }
                }
                r
            },
            _ => false,
        }
    }
}

/// One entry of the download queue.
#[derive(Debug)]
pub struct Download {
    pub id: i64,
    pub track_id: String,
    pub title: String,
    pub subtitle: String,
    pub state: DownloadState,
}

/// Mathematical model of [`Download`].
pub struct DownloadView {
    pub id: i64,
    pub track_id: Seq<char>,
    pub title: Seq<char>,
    pub subtitle: Seq<char>,
    pub state: DownloadStateView,
}

impl View for Download {
    type V = DownloadView;

    open spec fn view(&self) -> DownloadView {
        DownloadView {
            id: self.id,
            track_id: self.track_id@,
            title: self.title@,
            subtitle: self.subtitle@,
            state: self.state@,
        }
    }
}

impl Clone for Download {
    fn clone(&self) -> (r: Self)
        ensures
            r@ == self@,
    {
        Download {
            id: self.id,
            track_id: self.track_id.clone(),
            title: self.title.clone(),
            subtitle: self.subtitle.clone(),
            state: self.state.clone(),
        }
    }
}

/// A download handed to a worker.
#[derive(Debug)]
pub struct DownloadJob {
    pub id: i64,
    pub track_id: String,
}

/// Mathematical model of [`DownloadJob`].
pub struct DownloadJobView {
    pub id: i64,
    pub track_id: Seq<char>,
}

impl View for DownloadJob {
    type V = DownloadJobView;

    open spec fn view(&self) -> DownloadJobView {
        DownloadJobView { id: self.id, track_id: self.track_id@ }
    }
}

impl Clone for DownloadJob {
    fn clone(&self) -> (r: Self)
        ensures
            r@ == self@,
    {
        DownloadJob { id: self.id, track_id: self.track_id.clone() }
    }
}

/// The job for a download: its id and track id.
pub open spec fn job_of(d: DownloadView) -> DownloadJobView {
    DownloadJobView { id: d.id, track_id: d.track_id }
}

impl DownloadJob {
    /// The job for a download.
    pub fn from_download(d: Download) -> (r: DownloadJob)
        ensures
            r@ == job_of(d@),
    {
        DownloadJob { id: d.id, track_id: d.track_id }
    }
}

/// Messages to the queue.
#[derive(Debug, Clone)]
pub enum Message {
    /// A worker asks for a job.
    GetJob,
    /// Update state of download.
    UpdateState(i64, DownloadState),
    /// Add downloads.
    AddToQueue(Vec<Download>),
    /// The user interface asks for all downloads.
    GetDownloads,
}

/// Mathematical model of [`Message`].
pub enum MessageView {
    GetJob,
    UpdateState(i64, DownloadStateView),
    AddToQueue(Seq<DownloadView>),
    GetDownloads,
}

/// The models of a list of downloads.
pub open spec fn downloads_view(v: Seq<Download>) -> Seq<DownloadView> {
    v.map_values(|d: Download| d@)
}

impl View for Message {
    type V = MessageView;

    open spec fn view(&self) -> MessageView {
        match self {
            Message::GetJob => MessageView::GetJob,
            Message::UpdateState(id, s) => MessageView::UpdateState(*id, s@),
            Message::AddToQueue(v) => MessageView::AddToQueue(downloads_view(v@)),
            Message::GetDownloads => MessageView::GetDownloads,
        }
    }
}

/// Replies of the queue to the user interface.
#[derive(Debug, Clone)]
pub enum Response {
    Downloads(Vec<Download>),
}

/// Messages of the queue to the workers.
#[derive(Debug)]
pub enum DownloaderMessage {
    Job(DownloadJob, DownloaderConfig),
}

/// What the queue sends in answer to a message.
#[derive(Debug)]
pub enum QueueOutput {
    /// A job for the worker that waits for one.
    Worker(DownloaderMessage),
    /// A reply to the user interface.
    Ui(Response),
}

/// Mathematical model of [`QueueOutput`].
pub enum QueueOutputView {
    Job(DownloadJobView, DownloaderConfigView),
    Downloads(Seq<DownloadView>),
}

impl View for QueueOutput {
    type V = QueueOutputView;

    open spec fn view(&self) -> QueueOutputView {
        match self {
            QueueOutput::Worker(DownloaderMessage::Job(j, c)) => QueueOutputView::Job(j@, c@),
            QueueOutput::Ui(Response::Downloads(v)) => QueueOutputView::Downloads(downloads_view(v@)),
        }
    }
}

/// The download queue and whether a worker is waiting for a job.
#[derive(Debug)]
pub struct QueueState {
    pub queue: Vec<Download>,
    pub waiting_for_job: bool,
}

/// Mathematical model of [`QueueState`].
pub struct QueueStateView {
    pub queue: Seq<DownloadView>,
    pub waiting_for_job: bool,
}

impl View for QueueState {
    type V = QueueStateView;

    open spec fn view(&self) -> QueueStateView {
        QueueStateView { queue: downloads_view(self.queue@), waiting_for_job: self.waiting_for_job }
    }
}

/// Index of the first download at or after `from` that waits to be started.
pub open spec fn first_waiting_from(q: Seq<DownloadView>, from: nat) -> Option<int>
    decreases q.len() - from,
{
    if from >= q.len() {
        None
    } else if q[from as int].state is Queued {
        Some(from as int)
    } else {
        first_waiting_from(q, from + 1)
    }
}

/// Index of the first download that waits to be started.
pub open spec fn first_waiting(q: Seq<DownloadView>) -> Option<int> {
    first_waiting_from(q, 0)
}

/// Index of the first download with id `id`, searching from `from`.
pub open spec fn position_from(q: Seq<DownloadView>, id: i64, from: nat) -> Option<int>
    decreases q.len() - from,
{
    if from >= q.len() {
        None
    } else if q[from as int].id == id {
        Some(from as int)
    } else {
        position_from(q, id, from + 1)
    }
}

/// Index of the first download with id `id`.
pub open spec fn position_of(q: Seq<DownloadView>, id: i64) -> Option<int> {
    position_from(q, id, 0)
}

/// The largest id in the queue, or 0 for an empty queue.
pub open spec fn max_id(q: Seq<DownloadView>) -> int
    decreases q.len(),
{
    if q.len() == 0 {
        0
    } else if q.len() == 1 {
        q[0].id as int
    } else {
        let m = max_id(q.drop_last());
        if q.last().id > m { q.last().id as int } else { m }
    }
}

/// `d` with another state.
pub open spec fn with_state(d: DownloadView, s: DownloadStateView) -> DownloadView {
    DownloadView { state: s, ..d }
}

/// New downloads numbered from `base` upwards, all waiting to be started.
pub open spec fn numbered(ds: Seq<DownloadView>, base: int) -> Seq<DownloadView> {
    Seq::new(ds.len(), |k: int| DownloadView { id: (base + k) as i64, state: DownloadStateView::Queued, ..ds[k] })
}

/// The queue after locking the download at `i`.
pub open spec fn locked_at(q: Seq<DownloadView>, i: int) -> Seq<DownloadView> {
    q.update(i, with_state(q[i], DownloadStateView::Lock))
}

/// Whether the queue can take message `m` in state `s` (the cases in which it
/// does not are a missing download id, an id overflow, and a waiting worker
/// with nothing to start).
pub open spec fn accepts(s: QueueStateView, m: MessageView) -> bool {
    match m {
        MessageView::UpdateState(id, _) => position_of(s.queue, id) is Some,
        MessageView::AddToQueue(ds) => {
            &&& max_id(s.queue) + ds.len() <= i64::MAX
            &&& s.waiting_for_job ==> first_waiting(s.queue + numbered(ds, max_id(s.queue))) is Some
        },
        _ => true,
    }
}

/// The next state of the queue and what it sends, on message `m`.
pub open spec fn step(s: QueueStateView, m: MessageView, config: DownloaderConfigView) -> (QueueStateView, Option<QueueOutputView>) {
    match m {
        MessageView::GetJob => match first_waiting(s.queue) {
            Some(i) => (
                QueueStateView { queue: locked_at(s.queue, i), waiting_for_job: false },
                Some(QueueOutputView::Job(job_of(s.queue[i]), config)),
            ),
            None => (QueueStateView { queue: s.queue, waiting_for_job: true }, None),
        },
        MessageView::UpdateState(id, st) => {
            let i = position_of(s.queue, id).unwrap();
            let updated = s.queue.update(i, with_state(s.queue[i], st));
            let q = if st is Done { updated.remove(i) } else { updated };
            (QueueStateView { queue: q, waiting_for_job: s.waiting_for_job }, None)
        },
        MessageView::AddToQueue(ds) => {
            let q = s.queue + numbered(ds, max_id(s.queue));
            if s.waiting_for_job {
                let i = first_waiting(q).unwrap();
                (
                    QueueStateView { queue: locked_at(q, i), waiting_for_job: false },
                    Some(QueueOutputView::Job(job_of(q[i]), config)),
                )
            } else {
                (QueueStateView { queue: q, waiting_for_job: false }, None)
            }
        },
        MessageView::GetDownloads => (s, Some(QueueOutputView::Downloads(s.queue))),
    }
}

impl QueueState {
    /// An empty queue with no worker waiting.
    pub fn new() -> (r: QueueState)
        ensures
            r@.queue.len() == 0,
            !r@.waiting_for_job,
    {
        QueueState { queue: Vec::new(), waiting_for_job: false }
    }

    /// Index of the first waiting download.
    fn find_waiting(&self) -> (r: Option<usize>)
        ensures
            match r {
                Some(i) => first_waiting(self@.queue) == Some(i as int) && i < self@.queue.len(),
                None => first_waiting(self@.queue) is None,
            },
    {
        let mut i: usize = 0;
        while i < self.queue.len()
            invariant
                i <= self.queue@.len(),
                first_waiting(self@.queue) == first_waiting_from(self@.queue, i as nat),
            decreases self.queue.len() - i,
        {
            if matches!(self.queue[i].state, DownloadState::Queued) {
                return Some(i);
            }
            i += 1;
        }
        None
    }

    /// Index of the first download with id `id`.
    fn find_id(&self, id: i64) -> (r: Option<usize>)
        ensures
            match r {
                Some(i) => position_of(self@.queue, id) == Some(i as int) && i < self@.queue.len(),
                None => position_of(self@.queue, id) is None,
            },
    {
        let mut i: usize = 0;
        while i < self.queue.len()
            invariant
                i <= self.queue@.len(),
                position_of(self@.queue, id) == position_from(self@.queue, id, i as nat),
            decreases self.queue.len() - i,
        {
            if self.queue[i].id == id {
                return Some(i);
            }
            i += 1;
        }
        None
    }

    /// The largest id in the queue, or 0.
    fn max_id(&self) -> (r: i64)
        ensures
            r as int == max_id(self@.queue),
    {
        let mut m: i64 = 0;
        let mut i: usize = 0;
        while i < self.queue.len()
            invariant
                i <= self.queue@.len(),
                i > 0 ==> m as int == max_id(self@.queue.subrange(0, i as int)),
                i == 0 ==> m == 0,
            decreases self.queue.len() - i,
        {
            let id = self.queue[i].id;
            proof {
                let pre = self@.queue.subrange(0, i as int);
                let next = self@.queue.subrange(0, i + 1);
                assert(next.drop_last() =~= pre);
                assert(next.last() == self@.queue[i as int]);
            }
            if i == 0 || id > m {
                m = id;
            }
            i += 1;
        }
        proof {
            assert(self@.queue.subrange(0, self@.queue.len() as int) =~= self@.queue);
        }
        m
    }

    /// Locks the download at `i` and returns its job.
    fn lock_and_dispatch(&mut self, i: usize, config: &DownloaderConfig) -> (out: QueueOutput)
        requires
            i < old(self)@.queue.len(),
        ensures
            final(self)@.queue == locked_at(old(self)@.queue, i as int),
            final(self)@.waiting_for_job == old(self)@.waiting_for_job,
            out@ == QueueOutputView::Job(job_of(old(self)@.queue[i as int]), config@),
    {
        let mut d = self.queue[i].clone();
        d.state = DownloadState::Lock;
        let job = DownloadJob { id: d.id, track_id: d.track_id.clone() };
        self.queue.set(i, d);
        proof {
            assert(downloads_view(self.queue@) =~= locked_at(downloads_view(old(self).queue@), i as int));
        }
        QueueOutput::Worker(DownloaderMessage::Job(job, config.clone()))
    }

    /// Handles one message: updates the queue and returns what to send.
    pub fn handle(&mut self, msg: Message, config: &DownloaderConfig) -> (out: Option<QueueOutput>)
        requires
            accepts(old(self)@, msg@),
        ensures
            (final(self)@, match out {
                Some(o) => Some(o@),
                None => None,
            }) == step(old(self)@, msg@, config@),
    {
        match msg {
            Message::GetJob => {
                match self.find_waiting() {
                    Some(i) => {
                        let o = self.lock_and_dispatch(i, config);
                        self.waiting_for_job = false;
                        Some(o)
                    },
                    None => {
                        self.waiting_for_job = true;
                        None
                    },
                }
            },
            Message::UpdateState(id, state) => {
                let i = self.find_id(id).unwrap();
                let done = matches!(state, DownloadState::Done);
                let mut d = self.queue[i].clone();
                d.state = state;
                self.queue.set(i, d);
                if done {
                    self.queue.remove(i);
                }
                proof {
                    let oq = old(self)@.queue;
                    let updated = oq.update(i as int, with_state(oq[i as int], msg@->UpdateState_1));
                    if done {
                        assert(self@.queue =~= updated.remove(i as int));
                    } else {
                        assert(self@.queue =~= updated);
                    }
                }
                None
            },
            Message::AddToQueue(download) => {
                let base = self.max_id();
                let ghost oq = old(self)@.queue;
                let ghost ds = downloads_view(download@);
                let mut k: usize = 0;
                let mut id: i64 = base;
                while k < download.len()
                    invariant
                        k <= download@.len(),
                        ds == downloads_view(download@),
                        base as int == max_id(oq),
                        base + download@.len() <= i64::MAX,
                        id == base + k,
                        self@.waiting_for_job == old(self)@.waiting_for_job,
                        self@.queue == oq + numbered(ds, base as int).subrange(0, k as int),
                    decreases download.len() - k,
                {
                    let mut d = download[k].clone();
                    d.id = id;
                    d.state = DownloadState::Queued;
                    let ghost before = self.queue@;
                    proof {
                        assert(ds[k as int] == download@[k as int]@);
                        assert(d@ == numbered(ds, base as int)[k as int]);
                    }
                    self.queue.push(d);
                    id = id + 1;
                    k += 1;
                    proof {
                        lemma_view_push(before, d);
                        assert(self@.queue =~= oq + numbered(ds, base as int).subrange(0, k as int));
                    }
                }
                proof {
                    assert(numbered(ds, base as int).subrange(0, k as int) =~= numbered(ds, base as int));
                }
                if self.waiting_for_job {
                    let i = self.find_waiting().unwrap();
                    let o = self.lock_and_dispatch(i, config);
                    self.waiting_for_job = false;
                    Some(o)
                } else {
                    None
                }
            },
            Message::GetDownloads => {
                let mut copy: Vec<Download> = Vec::new();
                let mut k: usize = 0;
                while k < self.queue.len()
                    invariant
                        k <= self.queue@.len(),
                        downloads_view(copy@) == downloads_view(self.queue@).subrange(0, k as int),
                    decreases self.queue.len() - k,
                {
                    let ghost before = copy@;
                    let x = self.queue[k].clone();
                    copy.push(x);
                    k += 1;
                    proof {
                        lemma_view_push(before, x);
                        assert(downloads_view(self.queue@)[k - 1] == self.queue@[k - 1]@);
                        assert(downloads_view(copy@) =~= downloads_view(self.queue@).subrange(0, k as int));
                    }
                }
                proof {
                    assert(downloads_view(self.queue@).subrange(0, k as int) =~= downloads_view(self.queue@));
                }
                Some(QueueOutput::Ui(Response::Downloads(copy)))
            },
        }
    }
}

/// The models of a list with one more download.
pub proof fn lemma_view_push(v: Seq<Download>, x: Download)
    ensures
        downloads_view(v.push(x)) == downloads_view(v).push(x@),
{
    assert(downloads_view(v.push(x)) =~= downloads_view(v).push(x@));
}

/// No worker waits for a job while a download waits to be started.
pub open spec fn no_idle_worker(s: QueueStateView) -> bool {
    s.waiting_for_job ==> first_waiting(s.queue) is None
}

/// Whether a message resets a download to the waiting state.
pub open spec fn resets_to_waiting(m: MessageView) -> bool {
    m matches MessageView::UpdateState(_, st) && st is Queued
}

/// Every message but one that resets a download to waiting keeps the property
/// that no worker waits for a job while a download waits to be started.
pub proof fn lemma_no_idle_worker_kept(s: QueueStateView, m: MessageView, config: DownloaderConfigView)
    requires
        no_idle_worker(s),
        accepts(s, m),
        !resets_to_waiting(m),
    ensures
        no_idle_worker(step(s, m, config).0),
{
    match m {
        MessageView::UpdateState(id, st) => {
            if s.waiting_for_job {
                let i = position_of(s.queue, id).unwrap();
                lemma_position_in_range(s.queue, id, 0);
                let updated = s.queue.update(i, with_state(s.queue[i], st));
                lemma_no_waiting_update(s.queue, i, st);
                if st is Done {
                    lemma_no_waiting_remove(updated, i);
                }
            }
        },
        _ => {},
    }
}

/// A message to the queue dispatches at most one job, and a dispatched job is
/// the first waiting download, which is locked from then on.
pub proof fn lemma_dispatch_first_waiting(s: QueueStateView, m: MessageView, config: DownloaderConfigView)
    requires
        accepts(s, m),
    ensures
        ({
            let (next, out) = step(s, m, config);
            out matches Some(QueueOutputView::Job(job, c)) ==> {
                let q = match m {
                    MessageView::AddToQueue(ds) => s.queue + numbered(ds, max_id(s.queue)),
                    _ => s.queue,
                };
                let i = first_waiting(q).unwrap();
                &&& c == config
                &&& 0 <= i < q.len()
                &&& q[i].state is Queued
                &&& job == job_of(q[i])
                &&& next.queue[i].state is Lock
                &&& next.queue.len() == q.len()
                &&& !next.waiting_for_job
            }
        }),
{
    match m {
        MessageView::GetJob => {
            lemma_first_waiting_is_waiting(s.queue, 0);
        },
        MessageView::AddToQueue(ds) => {
            lemma_first_waiting_is_waiting(s.queue + numbered(ds, max_id(s.queue)), 0);
        },
        _ => {},
    }
}

/// Added downloads get consecutive ids, starting at the largest id already in
/// the queue (0 for an empty queue), and wait to be started.
pub proof fn lemma_added_ids(s: QueueStateView, ds: Seq<DownloadView>, config: DownloaderConfigView)
    requires
        accepts(s, MessageView::AddToQueue(ds)),
        !s.waiting_for_job,
    ensures
        ({
            let next = step(s, MessageView::AddToQueue(ds), config).0;
            &&& next.queue.len() == s.queue.len() + ds.len()
            &&& next.queue.subrange(0, s.queue.len() as int) == s.queue
            &&& forall|k: int| 0 <= k < ds.len() ==> {
                let d = #[trigger] next.queue[s.queue.len() + k];
                &&& d.id == max_id(s.queue) + k
                &&& d.state is Queued
                &&& d.track_id == ds[k].track_id
                &&& d.title == ds[k].title
                &&& d.subtitle == ds[k].subtitle
            }
        }),
{
    let next = step(s, MessageView::AddToQueue(ds), config).0;
    assert(next.queue.subrange(0, s.queue.len() as int) =~= s.queue);
}

/// A download reported done leaves the queue; other reports only change the state.
pub proof fn lemma_update_state(s: QueueStateView, id: i64, st: DownloadStateView, config: DownloaderConfigView)
    requires
        accepts(s, MessageView::UpdateState(id, st)),
    ensures
        ({
            let next = step(s, MessageView::UpdateState(id, st), config).0;
            let i = position_of(s.queue, id).unwrap();
            &&& 0 <= i < s.queue.len()
            &&& st is Done ==> next.queue == s.queue.remove(i)
            &&& !(st is Done) ==> next.queue == s.queue.update(i, with_state(s.queue[i], st))
            &&& next.waiting_for_job == s.waiting_for_job
        }),
{
    lemma_position_in_range(s.queue, id, 0);
    let i = position_of(s.queue, id).unwrap();
    let updated = s.queue.update(i, with_state(s.queue[i], st));
    if st is Done {
        assert(updated.remove(i) =~= s.queue.remove(i));
    }
}

/// Asking for the downloads returns the queue and changes nothing.
pub proof fn lemma_get_downloads(s: QueueStateView, config: DownloaderConfigView)
    ensures
        step(s, MessageView::GetDownloads, config) == (s, Some(QueueOutputView::Downloads(s.queue))),
{
}

/// A found position is within the queue and holds the id.
pub proof fn lemma_position_in_range(q: Seq<DownloadView>, id: i64, from: nat)
    ensures
        position_from(q, id, from) matches Some(i) ==> from <= i < q.len() && q[i].id == id,
    decreases q.len() - from,
{
    if from < q.len() && q[from as int].id != id {
        lemma_position_in_range(q, id, from + 1);
    }
}

/// The first waiting download is within the queue and is waiting.
pub proof fn lemma_first_waiting_is_waiting(q: Seq<DownloadView>, from: nat)
    ensures
        first_waiting_from(q, from) matches Some(i) ==> from <= i < q.len() && q[i].state is Queued,
        first_waiting_from(q, from) is None ==> forall|j: int| from <= j < q.len() ==> !(q[j].state is Queued),
    decreases q.len() - from,
{
    if from < q.len() && !(q[from as int].state is Queued) {
        lemma_first_waiting_is_waiting(q, from + 1);
        assert forall|j: int| from <= j < q.len() && first_waiting_from(q, from) is None implies !(q[j].state is Queued) by {
            if j == from {
            } else {
            }
        }
    }
}

/// No download waits when none waits in the suffix from 0 (characterisation).
pub proof fn lemma_no_waiting_iff(q: Seq<DownloadView>, from: nat)
    requires
        forall|j: int| from <= j < q.len() ==> !(q[j].state is Queued),
    ensures
        first_waiting_from(q, from) is None,
    decreases q.len() - from,
{
    if from < q.len() {
        lemma_no_waiting_iff(q, from + 1);
    }
}

/// Setting a state other than waiting keeps a queue free of waiting downloads.
pub proof fn lemma_no_waiting_update(q: Seq<DownloadView>, i: int, st: DownloadStateView)
    requires
        first_waiting(q) is None,
        0 <= i < q.len(),
        !(st is Queued),
    ensures
        first_waiting(q.update(i, with_state(q[i], st))) is None,
{
    lemma_first_waiting_is_waiting(q, 0);
    let u = q.update(i, with_state(q[i], st));
    lemma_no_waiting_iff(u, 0);
}

/// Removing an entry keeps a queue free of waiting downloads.
pub proof fn lemma_no_waiting_remove(q: Seq<DownloadView>, i: int)
    requires
        first_waiting(q) is None,
        0 <= i < q.len(),
    ensures
        first_waiting(q.remove(i)) is None,
{
    lemma_first_waiting_is_waiting(q, 0);
    let r = q.remove(i);
    assert forall|j: int| 0 <= j < r.len() implies !(r[j].state is Queued) by {
        if j < i {
            assert(r[j] == q[j]);
        } else {
            assert(r[j] == q[j + 1]);
        }
    }
    lemma_no_waiting_iff(r, 0);
}

// ---------------------------------------------------------------------------
// Scheduling jobs onto workers

/// Jobs being run and jobs waiting for a free worker.
#[derive(Debug)]
pub struct Scheduler {
    pub running: usize,
    pub pending: Vec<(DownloadJob, DownloaderConfig)>,
}

/// Model of a job with its settings.
pub open spec fn job_entry_view(e: (DownloadJob, DownloaderConfig)) -> (DownloadJobView, DownloaderConfigView) {
    (e.0@, e.1@)
}

/// Models of a list of jobs with their settings.
pub open spec fn entries_view(v: Seq<(DownloadJob, DownloaderConfig)>) -> Seq<(DownloadJobView, DownloaderConfigView)> {
    v.map_values(|e: (DownloadJob, DownloaderConfig)| job_entry_view(e))
}

/// Mathematical model of [`Scheduler`].
pub struct SchedulerView {
    pub running: nat,
    pub pending: Seq<(DownloadJobView, DownloaderConfigView)>,
}

impl View for Scheduler {
    type V = SchedulerView;

    open spec fn view(&self) -> SchedulerView {
        SchedulerView { running: self.running as nat, pending: entries_view(self.pending@) }
    }
}

/// Model of an optional job to start.
pub open spec fn start_view(o: Option<(DownloadJob, DownloaderConfig)>) -> Option<(DownloadJobView, DownloaderConfigView)> {
    match o {
        Some(e) => Some(job_entry_view(e)),
        None => None,
    }
}

/// The scheduler after a job arrives: it starts at once when fewer jobs run than
/// its settings allow, and waits otherwise.
pub open spec fn on_job_spec(s: SchedulerView, job: DownloadJobView, config: DownloaderConfigView)
    -> (SchedulerView, Option<(DownloadJobView, DownloaderConfigView)>)
{
    if s.running < config.concurrent_downloads {
        (SchedulerView { running: s.running + 1, pending: s.pending }, Some((job, config)))
    } else {
        (SchedulerView { running: s.running, pending: s.pending.push((job, config)) }, None)
    }
}

/// The scheduler after a job finishes: the oldest waiting job, if any, starts.
pub open spec fn on_finished_spec(s: SchedulerView) -> (SchedulerView, Option<(DownloadJobView, DownloaderConfigView)>) {
    if s.pending.len() > 0 {
        (SchedulerView { running: s.running, pending: s.pending.drop_first() }, Some(s.pending[0]))
    } else {
        (SchedulerView { running: (s.running - 1) as nat, pending: s.pending }, None)
    }
}

impl Scheduler {
    /// No job running or waiting.
    pub fn new() -> (r: Scheduler)
        ensures
            r@.running == 0,
            r@.pending.len() == 0,
    {
        let r = Scheduler { running: 0, pending: Vec::new() };
        proof {
            assert(r@.pending =~= Seq::<(DownloadJobView, DownloaderConfigView)>::empty());
        }
        r
    }

    /// A job arrived; returns the job to start now, if any.
    pub fn on_job(&mut self, job: DownloadJob, config: DownloaderConfig) -> (start: Option<(DownloadJob, DownloaderConfig)>)
        ensures
            (final(self)@, start_view(start)) == on_job_spec(old(self)@, job@, config@),
    {
        if self.running < config.concurrent_downloads {
            self.running = self.running + 1;
            Some((job, config))
        } else {
            let ghost before = self.pending@;
            self.pending.push((job, config));
            proof {
                assert(entries_view(self.pending@) =~= entries_view(before).push((job@, config@)));
            }
            None
        }
    }

    /// A running job finished; returns the waiting job to start now, if any.
    pub fn on_finished(&mut self) -> (start: Option<(DownloadJob, DownloaderConfig)>)
        requires
            old(self)@.running > 0,
        ensures
            (final(self)@, start_view(start)) == on_finished_spec(old(self)@),
    {
        if self.pending.len() > 0 {
            let ghost before = self.pending@;
            let e = self.pending.remove(0);
            proof {
                assert(entries_view(self.pending@) =~= entries_view(before).drop_first());
            }
            Some(e)
        } else {
            self.running = self.running - 1;
            None
        }
    }
}

/// A job that arrives starts at once only when fewer jobs run than its settings
/// allow; a finished job frees its worker for the oldest waiting job, so the
/// number of running jobs never grows when a job finishes.
pub proof fn lemma_scheduler_bounds(s: SchedulerView, job: DownloadJobView, config: DownloaderConfigView)
    ensures
        on_job_spec(s, job, config).1 is Some ==> s.running < config.concurrent_downloads
            && on_job_spec(s, job, config).0.running == s.running + 1,
        on_job_spec(s, job, config).1 is None ==> on_job_spec(s, job, config).0.pending.last() == (job, config),
        s.running > 0 ==> on_finished_spec(s).0.running <= s.running,
        s.pending.len() > 0 ==> on_finished_spec(s).1 == Some(s.pending[0]),
{
}

/// A waiting job always has a running job ahead of it.
pub open spec fn no_stalled_job(s: SchedulerView) -> bool {
    s.pending.len() > 0 ==> s.running > 0
}

/// When every job allows at least one download at a time, a job never waits
/// while no job runs: arrivals and completions keep that property.
pub proof fn lemma_no_stalled_job_kept(s: SchedulerView, job: DownloadJobView, config: DownloaderConfigView)
    requires
        no_stalled_job(s),
        config.concurrent_downloads >= 1,
    ensures
        no_stalled_job(on_job_spec(s, job, config).0),
        s.running > 0 ==> no_stalled_job(on_finished_spec(s).0),
{
}

/// No download of the queue is done.
pub open spec fn no_done(s: QueueStateView) -> bool {
    forall|i: int| 0 <= i < s.queue.len() ==> !(#[trigger] s.queue[i].state is Done)
}

/// A download reported done leaves the queue at once, so no message puts a
/// done download into a queue that holds none.
pub proof fn lemma_no_done_kept(s: QueueStateView, m: MessageView, config: DownloaderConfigView)
    requires
        no_done(s),
        accepts(s, m),
    ensures
        no_done(step(s, m, config).0),
{
    let next = step(s, m, config).0;
    match m {
        MessageView::GetJob => {
            if let Some(i) = first_waiting(s.queue) {
                lemma_first_waiting_is_waiting(s.queue, 0);
                assert forall|k: int| 0 <= k < next.queue.len() implies !(#[trigger] next.queue[k].state is Done) by {
                    if k != i {
                        assert(next.queue[k] == s.queue[k]);
                    }
                }
            }
        },
        MessageView::UpdateState(id, st) => {
            let i = position_of(s.queue, id).unwrap();
            lemma_position_in_range(s.queue, id, 0);
            let updated = s.queue.update(i, with_state(s.queue[i], st));
            assert forall|k: int| 0 <= k < next.queue.len() implies !(#[trigger] next.queue[k].state is Done) by {
                if st is Done {
                    assert(next.queue[k] == updated.remove(i)[k]);
                    if k < i {
                        assert(next.queue[k] == s.queue[k]);
                    } else {
                        assert(next.queue[k] == s.queue[k + 1]);
                    }
                } else if k != i {
                    assert(next.queue[k] == s.queue[k]);
                }
            }
        },
        MessageView::AddToQueue(ds) => {
            let q = s.queue + numbered(ds, max_id(s.queue));
            assert forall|k: int| 0 <= k < q.len() implies !(#[trigger] q[k].state is Done) by {
                if k >= s.queue.len() {
                    assert(q[k] == numbered(ds, max_id(s.queue))[k - s.queue.len()]);
                } else {
                    assert(q[k] == s.queue[k]);
                }
            }
            if s.waiting_for_job {
                let i = first_waiting(q).unwrap();
                lemma_first_waiting_is_waiting(q, 0);
                assert forall|k: int| 0 <= k < next.queue.len() implies !(#[trigger] next.queue[k].state is Done) by {
                    if k != i {
                        assert(next.queue[k] == q[k]);
                    }
                }
            }
        },
        MessageView::GetDownloads => {},
    }
}

/// What the scheduler is told: a job arrives with its settings, or a running
/// job finishes.
pub enum SchedulerEvent {
    Arrive(DownloadJobView, DownloaderConfigView),
    Finish,
}

/// The scheduler after a sequence of events, the jobs held back on arrival
/// and the held-back jobs started when a job finished, each in order. A finish
/// while nothing runs cannot happen and leaves the scheduler as it is.
pub open spec fn run(s: SchedulerView, events: Seq<SchedulerEvent>)
    -> (SchedulerView, Seq<(DownloadJobView, DownloaderConfigView)>, Seq<(DownloadJobView, DownloaderConfigView)>)
    decreases events.len(),
{
    if events.len() == 0 {
        (s, Seq::empty(), Seq::empty())
    } else {
        let (t, held, resumed) = run(s, events.drop_last());
        match events.last() {
            SchedulerEvent::Arrive(job, config) => {
                let (t2, start) = on_job_spec(t, job, config);
                (t2, if start is None { held.push((job, config)) } else { held }, resumed)
            },
            SchedulerEvent::Finish => if t.running == 0 {
                (t, held, resumed)
            } else {
                let (t2, start) = on_finished_spec(t);
                (t2, held, if let Some(e) = start { resumed.push(e) } else { resumed })
            },
        }
    }
}

/// Whether every arriving job allows `c` downloads at a time.
pub open spec fn all_limited(events: Seq<SchedulerEvent>, c: usize) -> bool {
    forall|i: int| 0 <= i < events.len() ==> (#[trigger] events[i] matches SchedulerEvent::Arrive(_, config)
        ==> config.concurrent_downloads == c)
}

/// Held-back jobs start in the order in which they arrived: the jobs waiting
/// at first, then those held back, are the jobs started on a finish, then those
/// still waiting. When every job allows `c` downloads and at most `c` run at
/// first, at most `c` run after any sequence of events.
pub proof fn lemma_scheduler_run(s: SchedulerView, events: Seq<SchedulerEvent>, c: usize)
    ensures
        s.pending + run(s, events).1 == run(s, events).2 + run(s, events).0.pending,
        s.running <= c && all_limited(events, c) ==> run(s, events).0.running <= c,
    decreases events.len(),
{
    if events.len() > 0 {
        let prefix = events.drop_last();
        lemma_scheduler_run(s, prefix, c);
        if all_limited(events, c) {
            assert forall|i: int| 0 <= i < prefix.len() implies (#[trigger] prefix[i] matches SchedulerEvent::Arrive(_, config)
                ==> config.concurrent_downloads == c) by {
                assert(prefix[i] == events[i]);
            }
            assert(events.last() == events[events.len() - 1]);
        }
        let (t, held, resumed) = run(s, prefix);
        match events.last() {
            SchedulerEvent::Arrive(job, config) => {
                let (t2, start) = on_job_spec(t, job, config);
                if start is None {
                    let e = (job, config);
                    assert(t2.pending == t.pending.push(e));
                    assert(s.pending + held.push(e) =~= (s.pending + held).push(e));
                    assert((resumed + t.pending).push(e) =~= resumed + t.pending.push(e));
                }
            },
            SchedulerEvent::Finish => {
                if t.running != 0 && t.pending.len() > 0 {
                    let (t2, start) = on_finished_spec(t);
                    assert(resumed.push(t.pending[0]) + t.pending.drop_first() =~= resumed + t.pending);
                }
            },
        }
    }
}

/// A job that arrives while fewer jobs run than its settings allow starts at
/// once and nothing is held back; a job that arrives while that many run is
/// held back, after the jobs already waiting, and no job starts.
pub proof fn lemma_job_start_rule(s: SchedulerView, job: DownloadJobView, config: DownloaderConfigView)
    ensures
        s.running < config.concurrent_downloads ==> {
            &&& on_job_spec(s, job, config).1 == Some((job, config))
            &&& on_job_spec(s, job, config).0.running == s.running + 1
            &&& on_job_spec(s, job, config).0.pending == s.pending
        },
        s.running >= config.concurrent_downloads ==> {
            &&& on_job_spec(s, job, config).1 is None
            &&& on_job_spec(s, job, config).0.running == s.running
            &&& on_job_spec(s, job, config).0.pending == s.pending.push((job, config))
        },
{
}

/// Whether every event is the arrival of a job with settings `config`.
pub open spec fn all_arrivals(events: Seq<SchedulerEvent>, config: DownloaderConfigView) -> bool {
    forall|i: int| 0 <= i < events.len() ==> (#[trigger] events[i]) == SchedulerEvent::Arrive(arrived_job(events[i]), config)
}

/// The job of an arrival event.
pub open spec fn arrived_job(e: SchedulerEvent) -> DownloadJobView {
    match e {
        SchedulerEvent::Arrive(j, _) => j,
        SchedulerEvent::Finish => arbitrary(),
    }
}

/// From an idle scheduler, when jobs with the same settings arrive and none
/// finishes, the first `concurrent_downloads` of them start and the rest are
/// held back in arrival order.
pub proof fn lemma_arrivals_fill_workers(events: Seq<SchedulerEvent>, config: DownloaderConfigView)
    requires
        all_arrivals(events, config),
    ensures
        ({
            let c = config.concurrent_downloads as int;
            let (t, held, resumed) = run(SchedulerView { running: 0, pending: Seq::empty() }, events);
            &&& t.running == if events.len() < c { events.len() as int } else { c }
            &&& held.len() == if events.len() < c { 0 } else { events.len() - c }
            &&& forall|k: int| 0 <= k < held.len() ==> #[trigger] held[k] == (
                arrived_job(events[c + k]), config)
            &&& t.pending == held
            &&& resumed.len() == 0
        }),
    decreases events.len(),
{
    let s0 = SchedulerView { running: 0, pending: Seq::empty() };
    let c = config.concurrent_downloads as int;
    if events.len() > 0 {
        let prefix = events.drop_last();
        assert forall|i: int| 0 <= i < prefix.len() implies (#[trigger] prefix[i]) == SchedulerEvent::Arrive(
            arrived_job(prefix[i]), config) by {
            assert(prefix[i] == events[i]);
        }
        lemma_arrivals_fill_workers(prefix, config);
        let (t, held, resumed) = run(s0, prefix);
        let last = events[events.len() - 1];
        assert(events.last() == last);
        assert(last == SchedulerEvent::Arrive(arrived_job(last), config));
        let (t2, held2, resumed2) = run(s0, events);
        if prefix.len() >= c {
            assert forall|k: int| 0 <= k < held2.len() implies #[trigger] held2[k] == (
                arrived_job(events[c + k]), config) by {
                if k < held.len() {
                    assert(held2[k] == held[k]);
                    assert(events[c + k] == prefix[c + k]);
                }
            }
        }
    }
}

} // verus!
