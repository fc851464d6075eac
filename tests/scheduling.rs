use bulk_fetch::fetch::{fetch_outcome, DownloadCompleted, DownloadError, DownloadResult};
use bulk_fetch::record::parse_url_lines;
use bulk_fetch::scheduler::{Action, Notice, RunConfig, Scheduler, DEFAULT_CONCURRENCY};

struct Trace {
    launches: Vec<usize>,
    notices: Vec<(usize, Notice)>,
    max_in_flight: usize,
    progress: usize,
    aborted: bool,
}

fn config(limit: usize, ignore_errors: bool, verbose: bool) -> RunConfig {
    RunConfig { concurrency_limit: limit, force_redownload: false, ignore_errors, verbose }
}

/// Drives a run; `newest_first` drains the latest launch first, as a slow early
/// fetch would let later ones finish before it.
fn drive(outcomes: &[DownloadResult], cfg: RunConfig, newest_first: bool) -> Trace {
    let mut s = Scheduler::new(outcomes.len(), cfg).unwrap();
    let mut running: Vec<usize> = Vec::new();
    let mut t = Trace { launches: vec![], notices: vec![], max_in_flight: 0, progress: 0, aborted: false };
    loop {
        match s.next_action() {
            Action::Launch(i) => {
                t.launches.push(i);
                running.push(i);
            }
            Action::AwaitCompletion => {
                let i = if newest_first { running.pop().unwrap() } else { running.remove(0) };
                let n = s.complete(outcomes[i]);
                t.notices.push((i, n));
            }
            Action::Finish => break,
        }
        assert_eq!(s.in_flight(), running.len());
        t.max_in_flight = t.max_in_flight.max(s.in_flight());
    }
    t.progress = s.progress();
    t.aborted = s.is_aborted();
    t
}

const OK: DownloadResult = Ok(DownloadCompleted::Success);
const SKIP: DownloadResult = Ok(DownloadCompleted::Skipped);
const FAIL: DownloadResult = Err(DownloadError::FailedToGetUrl);

#[test]
fn two_fresh_files_with_limit_one() {
    let list = parse_url_lines(&vec![
        "http://host/a.png a.png".to_string(),
        "http://host/b.png b.png".to_string(),
    ]);
    assert_eq!(list.images.len(), 2);
    let fresh = fetch_outcome(&vec![false, true, true, true, true, true], false).unwrap();
    assert_eq!(fresh, OK);
    let t = drive(&[fresh, fresh], config(1, false, true), false);
    assert_eq!(t.launches, vec![0, 1]);
    assert_eq!(t.notices, vec![(0, Notice::Downloaded), (1, Notice::Downloaded)]);
    assert_eq!(t.max_in_flight, 1);
    assert_eq!(t.progress, 2);
    assert!(!t.aborted);
}

#[test]
fn existing_first_file_is_skipped() {
    let a = fetch_outcome(&vec![true], false).unwrap();
    let b = fetch_outcome(&vec![false, true, true, true, true, true], false).unwrap();
    let t = drive(&[a, b], config(1, false, true), false);
    assert_eq!(t.notices, vec![(0, Notice::Skipped), (1, Notice::Downloaded)]);
    assert_eq!(t.progress, 2);
}

#[test]
fn transport_failure_aborts_the_run() {
    let a = fetch_outcome(&vec![false, false], false).unwrap();
    assert_eq!(a, FAIL);
    let t = drive(&[a, OK], config(1, false, false), false);
    assert_eq!(t.launches, vec![0]);
    assert_eq!(
        t.notices,
        vec![(0, Notice::Failed { error: DownloadError::FailedToGetUrl, fatal: true })]
    );
    assert!(t.aborted);
    assert!(t.progress < 2);
}

#[test]
fn abort_launches_nothing_more() {
    let outcomes = [OK, FAIL, OK, OK, OK, OK];
    let t = drive(&outcomes, config(2, false, false), false);
    assert!(t.aborted);
    assert_eq!(t.launches, vec![0, 1, 2]);
    assert_eq!(t.progress, 1);
    assert_eq!(t.notices.last().unwrap().1, Notice::Failed { error: DownloadError::FailedToGetUrl, fatal: true });
}

#[test]
fn ignored_failures_still_count_as_progress() {
    let outcomes = [FAIL, OK, FAIL, SKIP];
    let t = drive(&outcomes, config(2, true, false), true);
    assert!(!t.aborted);
    assert_eq!(t.progress, 4);
    let failed = t.notices.iter().filter(|(_, n)| matches!(n, Notice::Failed { fatal: false, .. })).count();
    assert_eq!(failed, 2);
    assert!(t.notices.iter().all(|(_, n)| !matches!(n, Notice::Downloaded | Notice::Skipped)));
}

#[test]
fn running_fetches_never_exceed_the_limit() {
    let outcomes = vec![OK; 50];
    for limit in [1usize, 3, 7, DEFAULT_CONCURRENCY, 60] {
        for newest_first in [false, true] {
            let t = drive(&outcomes, config(limit, false, false), newest_first);
            assert_eq!(t.max_in_flight, limit.min(50));
            assert_eq!(t.progress, 50);
            assert_eq!(t.launches, (0..50).collect::<Vec<_>>());
        }
    }
}

#[test]
fn drain_follows_arrival_not_launch() {
    let t = drive(&[OK, OK, OK], config(3, false, true), true);
    let order: Vec<usize> = t.notices.iter().map(|(i, _)| *i).collect();
    assert_eq!(order, vec![2, 1, 0]);
}

#[test]
fn second_run_skips_everything() {
    let fresh = fetch_outcome(&vec![false, true, true, true, true, true], false).unwrap();
    let first = drive(&[fresh, fresh, fresh], config(2, false, true), false);
    assert_eq!(first.progress, 3);
    let again = fetch_outcome(&vec![true], false).unwrap();
    let second = drive(&[again, again, again], config(2, false, true), false);
    assert!(second.notices.iter().all(|(_, n)| *n == Notice::Skipped));
    assert_eq!(second.progress, 3);
}

#[test]
fn empty_list_finishes_at_once() {
    let mut s = Scheduler::new(0, config(4, false, false)).unwrap();
    assert_eq!(s.next_action(), Action::Finish);
    assert_eq!(s.progress(), 0);
    assert_eq!(s.total(), 0);
}

#[test]
fn zero_limit_is_refused() {
    assert!(Scheduler::new(3, config(0, false, false)).is_none());
}

#[test]
fn quiet_unless_verbose() {
    let t = drive(&[OK, SKIP], config(1, false, false), false);
    assert_eq!(t.notices, vec![(0, Notice::Quiet), (1, Notice::Quiet)]);
}
