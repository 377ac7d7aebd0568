use vstd::prelude::*;

verus! {

/// What the pool puts on its queue for the workers.
pub enum Message<J> {
    /// A unit of work, run by whichever worker takes it.
    NewJob(J),
    /// Tells the worker that takes it to exit.
    Terminate,
}

/// What a worker does with the message it took from the queue.
pub enum WorkerStep<J> {
    /// Run the job, then take the next message.
    Run(J),
    /// Leave the loop; the worker is done.
    Exit,
}

/// A worker's decision on one message.
pub fn worker_step<J>(m: Message<J>) -> (r: WorkerStep<J>)
    ensures
        m matches Message::NewJob(j) ==> r == WorkerStep::Run(j),
        m is Terminate ==> r is Exit,
{
    match m {
        Message::NewJob(j) => WorkerStep::Run(j),
        Message::Terminate => WorkerStep::Exit,
    }
}

/// A message kind as recorded in the dispatcher's history.
pub enum Sent {
    Job,
    Stop,
}

/// Why the dispatcher refused a request.
#[derive(Clone, Copy, Debug, PartialEq, Eq, Structural)]
pub enum PoolError {
    /// A pool needs at least one worker.
    NoWorkers,
    /// The pool was shut down: no job may be queued after a termination signal,
    /// and the signals are sent only once.
    ShutDown,
}

/// The messages a pool of `workers` workers has queued so far: `jobs` jobs,
/// then, once shut down, one termination signal per worker.
pub open spec fn history(jobs: nat, workers: nat, closed: bool) -> Seq<Sent> {
    Seq::new(jobs, |i: int| Sent::Job) + if closed {
        Seq::new(workers, |i: int| Sent::Stop)
    } else {
        Seq::empty()
    }
}

/// How many termination signals `s` holds.
pub open spec fn stops(s: Seq<Sent>) -> nat {
    s.filter(|x: Sent| x is Stop).len()
}

proof fn lemma_stops_of_uniform(n: nat, m: Sent)
    ensures
        stops(Seq::new(n, |i: int| m)) == if m is Stop {
            n
        } else {
            0
        },
    decreases n,
{
    if n == 0 {
        assert(Seq::new(0, |i: int| m).filter(|x: Sent| x is Stop) =~= Seq::empty()) by {
            reveal(Seq::filter);
        }
    } else {
        lemma_stops_of_uniform((n - 1) as nat, m);
        assert(Seq::new(n, |i: int| m) =~= Seq::new((n - 1) as nat, |i: int| m).push(m));
        Seq::new((n - 1) as nat, |i: int| m).lemma_filter_len_push(|x: Sent| x is Stop, m);
    }
}

/// The pool's side of the queue protocol: it admits jobs until shutdown,
/// and at shutdown sends one termination signal per worker, after every
/// job already queued.
pub struct Dispatcher {
    workers: usize,
    closed: bool,
    jobs: Ghost<nat>,
}

impl Dispatcher {
    pub closed spec fn spec_workers(&self) -> nat {
        self.workers as nat
    }

    pub closed spec fn spec_closed(&self) -> bool {
        self.closed
    }

    /// Everything queued so far, in queue order.
    pub closed spec fn spec_history(&self) -> Seq<Sent> {
        history(self.jobs@, self.workers as nat, self.closed)
    }

    pub fn workers(&self) -> (r: usize)
        ensures
            r == self.spec_workers(),
    {
        self.workers
    }

    pub fn is_closed(&self) -> (r: bool)
        ensures
            r == self.spec_closed(),
    {
        self.closed
    }

    /// A dispatcher for `workers` workers, with nothing queued.
    pub fn new(workers: usize) -> (r: Result<Dispatcher, PoolError>)
        ensures
            workers == 0 <==> r is Err,
            r is Err ==> r->Err_0 == PoolError::NoWorkers,
            r matches Ok(d) ==> {
                &&& d.spec_workers() == workers
                &&& !d.spec_closed()
                &&& d.spec_history() == Seq::<Sent>::empty()
            },
    {
        if workers == 0 {
            return Err(PoolError::NoWorkers);
        }
        let d = Dispatcher { workers, closed: false, jobs: Ghost(0) };
        assert(d.spec_history() =~= Seq::<Sent>::empty());
        Ok(d)
    }

    /// Admits one job to the queue, unless the pool was shut down.
    pub fn submit(&mut self) -> (r: Result<(), PoolError>)
        ensures
            final(self).spec_workers() == old(self).spec_workers(),
            final(self).spec_closed() == old(self).spec_closed(),
            old(self).spec_closed() <==> r is Err,
            r is Err ==> r->Err_0 == PoolError::ShutDown && final(self).spec_history() == old(
                self,
            ).spec_history(),
            r is Ok ==> final(self).spec_history() == old(self).spec_history().push(Sent::Job),
    {
        if self.closed {
            return Err(PoolError::ShutDown);
        }
        let ghost before = self.spec_history();
        self.jobs = Ghost(self.jobs@ + 1);
        assert(self.spec_history() =~= before.push(Sent::Job));
        Ok(())
    }

    /// Closes the pool and returns how many termination signals to queue:
    /// one per worker.
    pub fn shutdown(&mut self) -> (r: Result<usize, PoolError>)
        ensures
            final(self).spec_workers() == old(self).spec_workers(),
            final(self).spec_closed(),
            old(self).spec_closed() <==> r is Err,
            r is Err ==> r->Err_0 == PoolError::ShutDown && final(self).spec_history() == old(
                self,
            ).spec_history(),
            r matches Ok(n) ==> {
                &&& n == old(self).spec_workers()
                &&& final(self).spec_history() == old(self).spec_history() + Seq::new(
                    n as nat,
                    |i: int| Sent::Stop,
                )
            },
    {
        if self.closed {
            return Err(PoolError::ShutDown);
        }
        let ghost before = self.spec_history();
        self.closed = true;
        assert(self.spec_history() =~= before + Seq::new(self.workers as nat, |i: int| Sent::Stop));
        Ok(self.workers)
    }

    /// Shutdown drains the queue: in the order the pool queues messages, no
    /// job follows a termination signal, and a shut-down pool has queued
    /// exactly one termination signal per worker.
    pub proof fn lemma_jobs_drain_before_stop(&self)
        ensures
            forall|i: int, j: int|
                0 <= i < j < self.spec_history().len() && #[trigger] self.spec_history()[i]
                    is Stop ==> #[trigger] self.spec_history()[j] is Stop,
            self.spec_closed() ==> stops(self.spec_history()) == self.spec_workers(),
            !self.spec_closed() ==> stops(self.spec_history()) == 0,
    {
        let jobs = Seq::new(self.jobs@, |i: int| Sent::Job);
        let signals = Seq::new(self.workers as nat, |i: int| Sent::Stop);
        lemma_stops_of_uniform(self.jobs@, Sent::Job);
        lemma_stops_of_uniform(self.workers as nat, Sent::Stop);
        Seq::filter_distributes_over_add(jobs, signals, |x: Sent| x is Stop);
        Seq::filter_distributes_over_add(jobs, Seq::empty(), |x: Sent| x is Stop);
        assert(Seq::<Sent>::empty().filter(|x: Sent| x is Stop) =~= Seq::empty()) by {
            reveal(Seq::filter);
        }
    }
}

} // verus!
