use smallpt::pool::{worker_step, Dispatcher, Message, PoolError, WorkerStep};

#[test]
fn worker_runs_jobs_and_exits_on_terminate() {
    match worker_step(Message::NewJob(17u32)) {
        WorkerStep::Run(j) => assert_eq!(j, 17),
        WorkerStep::Exit => panic!("a job must run"),
    }
    assert!(matches!(worker_step(Message::<u32>::Terminate), WorkerStep::Exit));
}

#[test]
fn pool_needs_a_worker() {
    assert_eq!(Dispatcher::new(0).err(), Some(PoolError::NoWorkers));
}

#[test]
fn shutdown_signals_each_worker_once() {
    let mut d = Dispatcher::new(8).unwrap();
    assert_eq!(d.workers(), 8);
    assert_eq!(d.submit(), Ok(()));
    assert_eq!(d.submit(), Ok(()));
    assert!(!d.is_closed());
    assert_eq!(d.shutdown(), Ok(8));
    assert!(d.is_closed());
    assert_eq!(d.submit(), Err(PoolError::ShutDown));
    assert_eq!(d.shutdown(), Err(PoolError::ShutDown));
}

#[test]
fn it_works() {
    assert_eq!(2 + 2, 4);
}
