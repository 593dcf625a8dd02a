use proton_launcher::pool::{DownloadPool, DownloadTask};

fn task(n: usize) -> DownloadTask {
    DownloadTask {
        url: format!("https://example.invalid/{n}").into_bytes(),
        destination: format!("files/{n}").into_bytes(),
    }
}

#[test]
fn pool_admits_up_to_limit_and_queues_the_rest() {
    let mut pool = DownloadPool::standard();
    let mut running = 0usize;
    for n in 0..25 {
        let started = pool.submit(task(n));
        if n < 10 {
            assert!(started.is_some());
            running += 1;
        } else {
            assert!(started.is_none());
        }
        assert!(pool.in_flight() <= 10);
    }
    assert_eq!(running, 10);
    assert_eq!(pool.in_flight(), 10);
    assert_eq!(pool.queued_len(), 15);
}

#[test]
fn drain_completes_exactly_when_all_finish() {
    let mut pool = DownloadPool::standard();
    for n in 0..25 {
        pool.submit(task(n));
    }
    let mut finished = 0usize;
    while !pool.drained() {
        assert!(pool.in_flight() <= 10);
        pool.task_finished();
        finished += 1;
        assert_eq!(pool.drained(), finished == 25);
    }
    assert_eq!(finished, 25);
    assert_eq!(pool.completed(), 25);
}

#[test]
fn freed_slot_goes_to_the_first_waiter() {
    let mut pool = DownloadPool::new(1);
    assert!(pool.submit(task(0)).is_some());
    assert!(pool.submit(task(1)).is_none());
    assert!(pool.submit(task(2)).is_none());
    let next = pool.task_finished().expect("a waiter takes the slot");
    assert_eq!(next.url, task(1).url);
    assert_eq!(pool.in_flight(), 1);
    let next = pool.task_finished().expect("the second waiter follows");
    assert_eq!(next.url, task(2).url);
    assert!(pool.task_finished().is_none());
    assert!(pool.drained());
}
