use webserver::{JobQueue, PoolCreationError, Step};

fn drain(q: &mut JobQueue<u32>) -> (Vec<u32>, bool) {
    let mut out = Vec::new();
    loop {
        match q.next_step() {
            Step::Run(j) => out.push(j),
            Step::Wait => return (out, false),
            Step::Exit => return (out, true),
        }
    }
}

#[test]
fn pool_of_size_zero_is_invalid() {
    assert_eq!(JobQueue::<u32>::new(0).err(), Some(PoolCreationError::InvalidSize));
}

#[test]
fn pool_of_positive_size_is_built() {
    for n in [1usize, 2, 4, 64] {
        let q = JobQueue::<u32>::new(n).ok().unwrap();
        assert_eq!(q.size(), n);
        assert!(q.is_open());
    }
}

#[test]
fn every_job_is_handed_out_once_in_order() {
    let mut q = JobQueue::new(3).ok().unwrap();
    let mut handed = Vec::new();
    for j in 0..10u32 {
        assert!(q.submit(j).is_ok());
        if j % 3 == 0 {
            if let Step::Run(x) = q.next_step() {
                handed.push(x);
            }
        }
    }
    let (rest, exited) = drain(&mut q);
    assert!(!exited);
    handed.extend(rest);
    assert_eq!(handed, (0..10u32).collect::<Vec<u32>>());
}

#[test]
fn idle_open_queue_says_wait() {
    let mut q = JobQueue::<u32>::new(1).ok().unwrap();
    assert!(matches!(q.next_step(), Step::Wait));
}

#[test]
fn closed_queue_refuses_jobs_and_drains() {
    let mut q = JobQueue::new(2).ok().unwrap();
    assert!(q.submit(1u32).is_ok());
    assert!(q.submit(2u32).is_ok());
    q.close();
    assert!(!q.is_open());
    assert_eq!(q.submit(3u32), Err(3u32));
    let (jobs, exited) = drain(&mut q);
    assert_eq!(jobs, vec![1u32, 2]);
    assert!(exited);
    assert!(matches!(q.next_step(), Step::Exit));
    assert!(matches!(q.next_step(), Step::Exit));
}
