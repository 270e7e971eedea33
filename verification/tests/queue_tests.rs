use down_on_spot::config::DownloaderConfig;
use down_on_spot::queue::{
    Download, DownloadJob, DownloadState, DownloaderMessage, Message, QueueOutput, QueueState, Response, Scheduler,
};

fn download(track: &str) -> Download {
    Download {
        id: 99,
        track_id: track.to_string(),
        title: format!("title {}", track),
        subtitle: "artist".to_string(),
        state: DownloadState::Error("old".to_string()),
    }
}

fn ids_and_states(q: &QueueState) -> Vec<(i64, DownloadState)> {
    q.queue.iter().map(|d| (d.id, d.state.clone())).collect()
}

#[test]
fn added_downloads_are_numbered_and_queued() {
    let config = DownloaderConfig::new();
    let mut q = QueueState::new();
    let out = q.handle(Message::AddToQueue(vec![download("a"), download("b"), download("c")]), &config);
    assert!(out.is_none());
    assert_eq!(
        ids_and_states(&q),
        vec![(0, DownloadState::Queued), (1, DownloadState::Queued), (2, DownloadState::Queued)]
    );
    assert_eq!(q.queue[1].track_id, "b");
    assert_eq!(q.queue[1].title, "title b");
    // A second batch is numbered from the largest id in the queue.
    q.handle(Message::AddToQueue(vec![download("d")]), &config);
    assert_eq!(q.queue[3].id, 2);
}

#[test]
fn get_job_locks_first_queued_download() {
    let config = DownloaderConfig::new();
    let mut q = QueueState::new();
    q.handle(Message::AddToQueue(vec![download("a"), download("b")]), &config);
    match q.handle(Message::GetJob, &config) {
        Some(QueueOutput::Worker(DownloaderMessage::Job(job, c))) => {
            assert_eq!(job.id, 0);
            assert_eq!(job.track_id, "a");
            assert_eq!(c.concurrent_downloads, 4);
        },
        other => panic!("unexpected {:?}", other),
    }
    assert_eq!(q.queue[0].state, DownloadState::Lock);
    assert_eq!(q.queue[1].state, DownloadState::Queued);
    assert!(!q.waiting_for_job);
}

#[test]
fn idle_worker_gets_next_added_download() {
    let config = DownloaderConfig::new();
    let mut q = QueueState::new();
    assert!(q.handle(Message::GetJob, &config).is_none());
    assert!(q.waiting_for_job);
    match q.handle(Message::AddToQueue(vec![download("x")]), &config) {
        Some(QueueOutput::Worker(DownloaderMessage::Job(job, _))) => assert_eq!(job.track_id, "x"),
        other => panic!("unexpected {:?}", other),
    }
    assert!(!q.waiting_for_job);
    assert_eq!(q.queue[0].state, DownloadState::Lock);
}

#[test]
fn done_downloads_leave_the_queue() {
    let config = DownloaderConfig::new();
    let mut q = QueueState::new();
    q.handle(Message::AddToQueue(vec![download("a"), download("b")]), &config);
    q.handle(Message::UpdateState(1, DownloadState::Downloading(10, 100)), &config);
    assert_eq!(q.queue[1].state, DownloadState::Downloading(10, 100));
    q.handle(Message::UpdateState(0, DownloadState::Done), &config);
    assert_eq!(q.queue.len(), 1);
    assert_eq!(q.queue[0].track_id, "b");
    q.handle(Message::UpdateState(1, DownloadState::Error("Unavailable!".to_string())), &config);
    assert_eq!(q.queue[0].state, DownloadState::Error("Unavailable!".to_string()));
}

#[test]
fn get_downloads_returns_the_queue() {
    let config = DownloaderConfig::new();
    let mut q = QueueState::new();
    q.handle(Message::AddToQueue(vec![download("a")]), &config);
    match q.handle(Message::GetDownloads, &config) {
        Some(QueueOutput::Ui(Response::Downloads(v))) => {
            assert_eq!(v.len(), 1);
            assert_eq!(v[0].track_id, "a");
            assert_eq!(v[0].state, DownloadState::Queued);
        },
        other => panic!("unexpected {:?}", other),
    }
    assert_eq!(q.queue.len(), 1);
}

#[test]
fn same_state_comparison() {
    assert!(DownloadState::Post.same_as(&DownloadState::Post));
    assert!(DownloadState::Error("e".to_string()).same_as(&DownloadState::Error("e".to_string())));
    assert!(!DownloadState::Error("e".to_string()).same_as(&DownloadState::Error("f".to_string())));
    assert!(!DownloadState::Downloading(1, 2).same_as(&DownloadState::Downloading(1, 3)));
}

#[test]
fn job_from_download() {
    let job = DownloadJob::from_download(download("t"));
    assert_eq!(job.id, 99);
    assert_eq!(job.track_id, "t");
}

fn job(n: i64) -> DownloadJob {
    DownloadJob { id: n, track_id: n.to_string() }
}

#[test]
fn scheduler_runs_at_most_the_limit_and_keeps_order() {
    let mut config = DownloaderConfig::new();
    config.concurrent_downloads = 2;
    let mut s = Scheduler::new();
    assert_eq!(s.on_job(job(1), config.clone()).map(|(j, _)| j.id), Some(1));
    assert_eq!(s.on_job(job(2), config.clone()).map(|(j, _)| j.id), Some(2));
    assert!(s.on_job(job(3), config.clone()).is_none());
    assert!(s.on_job(job(4), config.clone()).is_none());
    assert_eq!(s.running, 2);
    assert_eq!(s.pending.len(), 2);
    assert_eq!(s.on_finished().map(|(j, _)| j.id), Some(3));
    assert_eq!(s.on_finished().map(|(j, _)| j.id), Some(4));
    assert_eq!(s.running, 2);
    assert!(s.on_finished().is_none());
    assert_eq!(s.running, 1);
}
