use std::sync::{Arc, Mutex};
use thread_pool::dispatcher::Dispatcher;
use thread_pool::queue::Received;
use thread_pool::worker::WorkerState;

type Job = Box<dyn FnOnce() + Send>;

fn executing<T>(d: &Dispatcher<T>) -> usize {
    let mut n = 0;
    for w in 0..d.size() {
        if d.state_of(w) == WorkerState::Executing {
            n += 1;
        }
    }
    n
}

#[test]
fn new_dispatcher_has_idle_workers() {
    let d: Dispatcher<Job> = Dispatcher::new(3);
    assert_eq!(d.size(), 3);
    for w in 0..3 {
        assert_eq!(d.state_of(w), WorkerState::Idle);
    }
    assert_eq!(d.tickets_issued(), 0);
}

#[test]
fn tickets_follow_submission_order() {
    let mut d: Dispatcher<u32> = Dispatcher::new(2);
    assert_eq!(d.post(5), Ok(0));
    assert_eq!(d.post(6), Ok(1));
    assert_eq!(d.post(7), Ok(2));
    assert_eq!(d.tickets_issued(), 3);
    assert!(matches!(d.next_for(1), Received::Task(5)));
    assert!(matches!(d.next_for(0), Received::Task(6)));
    d.task_done(1);
    assert!(matches!(d.next_for(1), Received::Task(7)));
}

#[test]
fn post_after_close_is_refused() {
    let mut d: Dispatcher<u32> = Dispatcher::new(1);
    assert!(d.close());
    assert_eq!(d.post(9), Err(9));
    assert!(!d.close());
}

#[test]
fn ten_posted_tasks_each_run_once_on_four_workers() {
    let log = Arc::new(Mutex::new(Vec::new()));
    let mut d: Dispatcher<Job> = Dispatcher::new(4);
    for i in 0..10u32 {
        let log = Arc::clone(&log);
        let job: Job = Box::new(move || log.lock().unwrap().push(i));
        assert!(d.post(job).is_ok());
    }
    let mut runs = 0;
    let mut w = 0;
    loop {
        match d.next_for(w) {
            Received::Task(job) => {
                assert!(executing(&d) <= 4);
                job();
                d.task_done(w);
                runs += 1;
            }
            Received::Empty => break,
            Received::Closed => panic!("queue was not closed"),
        }
        w = (w + 1) % 4;
    }
    assert_eq!(runs, 10);
    let mut seen = log.lock().unwrap().clone();
    seen.sort();
    assert_eq!(seen, (0..10).collect::<Vec<u32>>());
}

#[test]
fn never_more_tasks_running_than_workers() {
    let mut d: Dispatcher<u32> = Dispatcher::new(2);
    for i in 0..5u32 {
        assert!(d.post(i).is_ok());
    }
    assert!(matches!(d.next_for(0), Received::Task(0)));
    assert!(matches!(d.next_for(1), Received::Task(1)));
    assert_eq!(executing(&d), 2);
    d.task_done(0);
    assert_eq!(executing(&d), 1);
    assert!(matches!(d.next_for(0), Received::Task(2)));
    assert_eq!(executing(&d), 2);
}

#[test]
fn three_sends_complete_one_after_another() {
    let log = Arc::new(Mutex::new(Vec::new()));
    let mut d: Dispatcher<Job> = Dispatcher::new(2);
    for i in 0..3u32 {
        let log2 = Arc::clone(&log);
        let job: Job = Box::new(move || log2.lock().unwrap().push(i));
        let ticket = d.post(job).ok().unwrap();
        assert_eq!(ticket, i as u64);
        assert!(!d.is_completed(ticket));
        let worker = (i as usize) % 2;
        match d.next_for(worker) {
            Received::Task(job) => {
                assert!(!d.is_completed(ticket));
                job();
                d.task_done(worker);
            }
            _ => panic!("expected the sent task"),
        }
        assert!(d.is_completed(ticket));
        assert_eq!(log.lock().unwrap().len(), i as usize + 1);
        for earlier in 0..=ticket {
            assert!(d.is_completed(earlier));
        }
    }
    assert_eq!(*log.lock().unwrap(), vec![0, 1, 2]);
}

#[test]
fn teardown_drains_queue_then_stops_every_worker() {
    let mut d: Dispatcher<u32> = Dispatcher::new(2);
    assert!(d.post(1).is_ok());
    assert!(d.post(2).is_ok());
    assert!(d.post(3).is_ok());
    assert!(d.close());
    let mut ran = Vec::new();
    for w in [0usize, 1] {
        loop {
            match d.next_for(w) {
                Received::Task(t) => {
                    ran.push(t);
                    d.task_done(w);
                }
                Received::Closed => {
                    assert_eq!(d.state_of(w), WorkerState::Draining);
                    d.worker_exit(w);
                    break;
                }
                Received::Empty => panic!("closed queue answered empty"),
            }
        }
    }
    assert_eq!(ran, vec![1, 2, 3]);
    assert_eq!(d.state_of(0), WorkerState::Terminated);
    assert_eq!(d.state_of(1), WorkerState::Terminated);
    for t in 0..3u64 {
        assert!(d.is_completed(t));
    }
}
