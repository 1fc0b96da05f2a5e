//! Coordination state of a fixed-size worker pool.
//!
//! The pool owns no threads: it is the bookkeeping that decides, for every
//! worker and every submitted job, what happens next. A runtime drives it by calling
//! [`ThreadPool::receive`] when a worker is free, running the job that came back, and
//! reporting completion with [`ThreadPool::finish`]. Shutdown broadcasts one
//! [`Message::Terminate`] per worker first and only then lets the runtime join them.
use vstd::prelude::*;

verus! {

/// What travels through the shared queue: a job, named by the number the pool gave
/// it on submission, or the signal that makes the receiving worker leave its loop.
#[derive(Clone, Copy, Debug, PartialEq, Eq, Structural)]
pub enum Message {
    NewJob(u64),
    Terminate,
}

/// Where one worker stands in its loop.
#[derive(Clone, Copy, Debug, PartialEq, Eq, Structural)]
pub enum WorkerState {
    /// Waiting on the queue.
    Idle,
    /// Running the job with this number.
    Executing(u64),
    /// Received `Terminate` and left its loop; its thread has not been joined yet.
    Terminated,
    /// Its thread has been joined.
    Joined,
}

/// The lifecycle of a pool.
#[derive(Clone, Copy, Debug, PartialEq, Eq, Structural)]
pub enum PoolPhase {
    Active,
    ShuttingDown,
    Drained,
}

/// Why a pool could not be built or could not take a job.
#[derive(Clone, Copy, Debug, PartialEq, Eq, Structural)]
pub enum PoolError {
    /// A pool needs at least one worker.
    ZeroSize,
    /// Shutdown has begun: no more work is accepted.
    ShuttingDown,
}

/// The coordination state of a pool: its workers, the shared queue, and how many
/// jobs it has accepted.
pub struct ThreadPool {
    workers: Vec<WorkerState>,
    queue: Vec<Message>,
    submitted: u64,
    shutting_down: bool,
    started: Ghost<Seq<u64>>,
    completed: Ghost<Seq<u64>>,
}

/// The mathematical picture of a pool.
pub struct PoolView {
    /// State of each worker, by id.
    pub workers: Seq<WorkerState>,
    /// Pending messages, oldest first.
    pub queue: Seq<Message>,
    /// How many jobs were accepted; they were numbered `0..submitted`.
    pub submitted: nat,
    /// Whether shutdown has begun.
    pub shutting_down: bool,
    /// Jobs in the order workers took them from the queue.
    pub started: Seq<u64>,
    /// Jobs in the order they finished.
    pub completed: Seq<u64>,
}

/// The numbers of the jobs carried by the `NewJob` messages of `q`, in queue order.
pub open spec fn job_ids(q: Seq<Message>) -> Seq<u64>
    decreases q.len(),
{
    if q.len() == 0 {
        Seq::empty()
    } else {
        match q[0] {
            Message::NewJob(id) => seq![id] + job_ids(q.drop_first()),
            Message::Terminate => job_ids(q.drop_first()),
        }
    }
}

/// How many `Terminate` messages `q` holds.
pub open spec fn terminate_count(q: Seq<Message>) -> nat
    decreases q.len(),
{
    if q.len() == 0 {
        0
    } else {
        (if q[0] is Terminate { 1nat } else { 0nat }) + terminate_count(q.drop_first())
    }
}

/// No job stands behind a `Terminate` in `q`.
pub open spec fn jobs_before_terminates(q: Seq<Message>) -> bool {
    forall|i: int, j: int| 0 <= i < j < q.len() && q[i] is Terminate ==> q[j] is Terminate
}

/// The job numbers `0, 1, ..., n - 1`.
pub open spec fn ids_upto(n: nat) -> Seq<u64> {
    Seq::new(n, |i: int| i as u64)
}

/// How many of `ws` are running a job.
pub open spec fn running_count(ws: Seq<WorkerState>) -> nat
    decreases ws.len(),
{
    if ws.len() == 0 {
        0
    } else {
        (if ws.last() is Executing { 1nat } else { 0nat }) + running_count(ws.drop_last())
    }
}

/// How many of `ws` have left their loop (terminated or joined).
pub open spec fn stopped_count(ws: Seq<WorkerState>) -> nat
    decreases ws.len(),
{
    if ws.len() == 0 {
        0
    } else {
        (if ws.last() is Terminated || ws.last() is Joined { 1nat } else { 0nat })
            + stopped_count(ws.drop_last())
    }
}

/// Some worker of `ws` is running job `id`.
pub open spec fn runs(ws: Seq<WorkerState>, id: u64) -> bool {
    exists|w: int| 0 <= w < ws.len() && ws[w] == WorkerState::Executing(id)
}

impl PoolView {
    pub open spec fn size(self) -> nat {
        self.workers.len()
    }

    pub open spec fn phase(self) -> PoolPhase {
        if !self.shutting_down {
            PoolPhase::Active
        } else if forall|w: int| 0 <= w < self.workers.len() ==> self.workers[w] is Joined {
            PoolPhase::Drained
        } else {
            PoolPhase::ShuttingDown
        }
    }

    /// Workers whose loop is still running (idle or executing).
    pub open spec fn live_count(self) -> nat {
        (self.workers.len() - stopped_count(self.workers)) as nat
    }

    /// The invariant that every operation of the pool keeps.
    pub open spec fn wf(self) -> bool {
        &&& self.workers.len() > 0
        &&& self.submitted < u64::MAX
        // every accepted job was either taken by a worker or still waits, in submission order
        &&& self.started + job_ids(self.queue) == ids_upto(self.submitted)
        &&& jobs_before_terminates(self.queue)
        &&& !self.shutting_down ==> terminate_count(self.queue) == 0 && stopped_count(
            self.workers,
        ) == 0
        &&& self.shutting_down ==> terminate_count(self.queue) + stopped_count(self.workers)
            == self.workers.len()
        // once a worker has taken a Terminate, no job is left behind in the queue
        &&& self.shutting_down && terminate_count(self.queue) < self.workers.len() ==> job_ids(
            self.queue,
        ).len() == 0
        // a running job has been started and has not finished; no two workers share one
        &&& forall|w: int, id: u64|
            0 <= w < self.workers.len() && self.workers[w] == WorkerState::Executing(id)
                ==> self.started.contains(id) && !self.completed.contains(id)
        &&& forall|v: int, w: int, id: u64|
            0 <= v < self.workers.len() && 0 <= w < self.workers.len() && self.workers[v]
                == WorkerState::Executing(id) && self.workers[w] == WorkerState::Executing(id)
                ==> v == w
        // a started job has finished or is running
        &&& forall|id: u64| #[trigger]
            self.started.contains(id) ==> self.completed.contains(id) || runs(self.workers, id)
        &&& forall|id: u64| #[trigger] self.completed.contains(id) ==> self.started.contains(id)
        &&& forall|i: int, j: int|
            0 <= i < j < self.completed.len() ==> self.completed[i] != self.completed[j]
        // with a single worker, jobs finish in the order they were taken
        &&& self.workers.len() == 1 ==> {
            ||| self.completed == self.started
            ||| self.started.len() > 0 && self.completed == self.started.drop_last()
                && self.workers[0] == WorkerState::Executing(self.started.last())
        }
    }
}

impl View for ThreadPool {
    type V = PoolView;

    closed spec fn view(&self) -> PoolView {
        PoolView {
            workers: self.workers@,
            queue: self.queue@,
            submitted: self.submitted as nat,
            shutting_down: self.shutting_down,
            started: self.started@,
            completed: self.completed@,
        }
    }
}


proof fn lemma_job_ids_push(q: Seq<Message>, m: Message)
    ensures
        job_ids(q.push(m)) == job_ids(q) + job_ids(seq![m]),
        terminate_count(q.push(m)) == terminate_count(q) + terminate_count(seq![m]),
    decreases q.len(),
{
    assert(seq![m].drop_first() =~= Seq::<Message>::empty());
    if q.len() == 0 {
        assert(q.push(m) =~= seq![m]);
        assert(job_ids(q) =~= Seq::<u64>::empty());
    } else {
        assert(q.push(m).drop_first() =~= q.drop_first().push(m));
        lemma_job_ids_push(q.drop_first(), m);
        assert(q.push(m)[0] == q[0]);
        match q[0] {
            Message::NewJob(id) => {
                assert(job_ids(q.push(m)) =~= seq![id] + (job_ids(q.drop_first()) + job_ids(
                    seq![m],
                )));
            },
            Message::Terminate => {},
        }
    }
}

proof fn lemma_single_message(m: Message)
    ensures
        job_ids(seq![m]) == (match m {
            Message::NewJob(id) => seq![id],
            Message::Terminate => Seq::<u64>::empty(),
        }),
        terminate_count(seq![m]) == (if m is Terminate { 1nat } else { 0nat }),
{
    let s = seq![m];
    assert(s.drop_first() =~= Seq::<Message>::empty());
    assert(job_ids(s.drop_first()) =~= Seq::<u64>::empty());
    assert(terminate_count(s.drop_first()) == 0);
    match m {
        Message::NewJob(id) => {
            assert(job_ids(s) =~= seq![id]);
        },
        Message::Terminate => {},
    }
}

proof fn lemma_no_terminate(q: Seq<Message>)
    requires
        terminate_count(q) == 0,
    ensures
        forall|i: int| 0 <= i < q.len() ==> q[i] is NewJob,
    decreases q.len(),
{
    if q.len() > 0 {
        lemma_no_terminate(q.drop_first());
        assert forall|i: int| 0 <= i < q.len() implies q[i] is NewJob by {
            if i > 0 {
                assert(q[i] == q.drop_first()[i - 1]);
            }
        }
    }
}

proof fn lemma_all_terminate(q: Seq<Message>)
    requires
        forall|i: int| 0 <= i < q.len() ==> q[i] is Terminate,
    ensures
        job_ids(q).len() == 0,
        terminate_count(q) == q.len(),
    decreases q.len(),
{
    if q.len() > 0 {
        lemma_all_terminate(q.drop_first());
    }
}

proof fn lemma_empty_when_no_messages(q: Seq<Message>)
    requires
        job_ids(q).len() == 0,
        terminate_count(q) == 0,
    ensures
        q.len() == 0,
{
    if q.len() > 0 {
        match q[0] {
            Message::NewJob(id) => {
                assert(job_ids(q)[0] == id);
            },
            Message::Terminate => {},
        }
    }
}

proof fn lemma_stopped_update(ws: Seq<WorkerState>, w: int, s: WorkerState)
    requires
        0 <= w < ws.len(),
    ensures
        stopped_count(ws.update(w, s)) + (if ws[w] is Terminated || ws[w] is Joined {
            1nat
        } else {
            0nat
        }) == stopped_count(ws) + (if s is Terminated || s is Joined {
            1nat
        } else {
            0nat
        }),
    decreases ws.len(),
{
    let u = ws.update(w, s);
    if w == ws.len() - 1 {
        assert(u.drop_last() =~= ws.drop_last());
    } else {
        assert(u.drop_last() =~= ws.drop_last().update(w, s));
        lemma_stopped_update(ws.drop_last(), w, s);
    }
}

proof fn lemma_running_bounded(ws: Seq<WorkerState>)
    ensures
        running_count(ws) <= ws.len(),
        stopped_count(ws) <= ws.len(),
    decreases ws.len(),
{
    if ws.len() > 0 {
        lemma_running_bounded(ws.drop_last());
    }
}

proof fn lemma_all_idle(ws: Seq<WorkerState>)
    requires
        forall|i: int| 0 <= i < ws.len() ==> ws[i] is Idle,
    ensures
        stopped_count(ws) == 0,
    decreases ws.len(),
{
    if ws.len() > 0 {
        lemma_all_idle(ws.drop_last());
    }
}

proof fn lemma_all_joined(ws: Seq<WorkerState>)
    requires
        forall|i: int| 0 <= i < ws.len() ==> ws[i] is Joined,
    ensures
        stopped_count(ws) == ws.len(),
    decreases ws.len(),
{
    if ws.len() > 0 {
        lemma_all_joined(ws.drop_last());
    }
}

impl ThreadPool {
    /// A pool with `size` idle workers and an empty queue.
    pub fn new(size: usize) -> (pool: ThreadPool)
        requires
            size > 0,
        ensures
            pool@.wf(),
            pool@.workers == Seq::new(size as nat, |i: int| WorkerState::Idle),
            pool@.queue.len() == 0,
            pool@.submitted == 0,
            !pool@.shutting_down,
            pool@.live_count() == size,
    {
        let mut workers: Vec<WorkerState> = Vec::with_capacity(size);
        let mut id: usize = 0;
        while id < size
            invariant
                id <= size,
                workers@ == Seq::new(id as nat, |i: int| WorkerState::Idle),
            decreases size - id,
        {
            workers.push(WorkerState::Idle);
            id = id + 1;
            assert(workers@ =~= Seq::new(id as nat, |i: int| WorkerState::Idle));
        }
        let pool = ThreadPool {
            workers,
            queue: Vec::new(),
            submitted: 0,
            shutting_down: false,
            started: Ghost(Seq::empty()),
            completed: Ghost(Seq::empty()),
        };
        proof {
            lemma_all_idle(pool@.workers);
            assert(pool@.started + job_ids(pool@.queue) =~= ids_upto(0));
        }
        pool
    }

    /// A pool with `size` workers, or `ZeroSize` when `size` is 0.
    pub fn build(size: usize) -> (r: Result<ThreadPool, PoolError>)
        ensures
            size == 0 <==> r == Err::<ThreadPool, PoolError>(PoolError::ZeroSize),
            r matches Ok(pool) ==> pool@.wf() && pool@.workers == Seq::new(
                size as nat,
                |i: int| WorkerState::Idle,
            ) && pool@.queue.len() == 0 && pool@.submitted == 0 && !pool@.shutting_down
                && pool@.live_count() == size,
    {
        if size == 0 {
            Err(PoolError::ZeroSize)
        } else {
            Ok(ThreadPool::new(size))
        }
    }

    /// Number of workers.
    pub fn size(&self) -> (r: usize)
        ensures
            r == self@.workers.len(),
    {
        self.workers.len()
    }

    /// How many jobs have been accepted so far.
    pub fn submitted(&self) -> (r: u64)
        ensures
            r == self@.submitted,
    {
        self.submitted
    }

    /// Number of messages waiting in the queue.
    pub fn pending(&self) -> (r: usize)
        ensures
            r == self@.queue.len(),
    {
        self.queue.len()
    }

    /// State of worker `w`, if there is such a worker.
    pub fn worker_state(&self, w: usize) -> (r: Option<WorkerState>)
        ensures
            w < self@.workers.len() ==> r == Some(self@.workers[w as int]),
            w >= self@.workers.len() ==> r is None,
    {
        if w < self.workers.len() {
            Some(self.workers[w])
        } else {
            None
        }
    }

    /// Where the pool stands in its lifecycle.
    pub fn phase(&self) -> (r: PoolPhase)
        ensures
            r == self@.phase(),
    {
        if !self.shutting_down {
            return PoolPhase::Active;
        }
        let mut w: usize = 0;
        while w < self.workers.len()
            invariant
                w <= self.workers.len(),
                self.shutting_down,
                forall|i: int| 0 <= i < w ==> self@.workers[i] is Joined,
            decreases self.workers.len() - w,
        {
            if !matches!(self.workers[w], WorkerState::Joined) {
                return PoolPhase::ShuttingDown;
            }
            w = w + 1;
        }
        PoolPhase::Drained
    }

    /// Submits one job. While the pool is active the job gets the next number and
    /// is queued behind every job submitted before it; once shutdown has begun it is
    /// refused and nothing changes.
    pub fn execute(&mut self) -> (r: Result<u64, PoolError>)
        requires
            old(self)@.wf(),
            old(self)@.submitted + 1 < u64::MAX,
        ensures
            final(self)@.wf(),
            old(self)@.shutting_down ==> r == Err::<u64, PoolError>(PoolError::ShuttingDown)
                && final(self)@ == old(self)@,
            !old(self)@.shutting_down ==> r == Ok::<u64, PoolError>(old(self)@.submitted as u64)
                && final(self)@ == (PoolView {
                queue: old(self)@.queue.push(Message::NewJob(old(self)@.submitted as u64)),
                submitted: old(self)@.submitted + 1,
                ..old(self)@
            }),
    {
        if self.shutting_down {
            return Err(PoolError::ShuttingDown);
        }
        let id = self.submitted;
        let ghost v = self@;
        proof {
            lemma_job_ids_push(v.queue, Message::NewJob(id));
            lemma_single_message(Message::NewJob(id));
            lemma_no_terminate(v.queue);
        }
        self.queue.push(Message::NewJob(id));
        self.submitted = id + 1;
        proof {
            assert(ids_upto(v.submitted + 1) =~= ids_upto(v.submitted).push(id));
            assert(v.started + (job_ids(v.queue) + seq![id]) =~= (v.started + job_ids(v.queue))
                + seq![id]);
            assert(self@.started + job_ids(self@.queue) =~= ids_upto(self@.submitted));
            assert(jobs_before_terminates(self@.queue));
        }
        Ok(id)
    }

    /// Worker `w` asks for its next message. It gets one only when it is idle and the
    /// queue is not empty; it then takes the oldest message, starts that job or, on
    /// `Terminate`, leaves its loop. In every other case nothing changes.
    pub fn receive(&mut self, w: usize) -> (r: Option<Message>)
        requires
            old(self)@.wf(),
        ensures
            final(self)@.wf(),
            r is None <==> (w >= old(self)@.workers.len() || !(old(self)@.workers[w as int] is Idle)
                || old(self)@.queue.len() == 0),
            r is None ==> final(self)@ == old(self)@,
            r matches Some(m) ==> m == old(self)@.queue[0] && final(self)@ == (PoolView {
                queue: old(self)@.queue.drop_first(),
                workers: old(self)@.workers.update(
                    w as int,
                    match m {
                        Message::NewJob(id) => WorkerState::Executing(id),
                        Message::Terminate => WorkerState::Terminated,
                    },
                ),
                started: match m {
                    Message::NewJob(id) => old(self)@.started.push(id),
                    Message::Terminate => old(self)@.started,
                },
                ..old(self)@
            }),
    {
        if w >= self.workers.len() || self.queue.len() == 0 {
            return None;
        }
        if !matches!(self.workers[w], WorkerState::Idle) {
            return None;
        }
        let ghost v = self@;
        let m = self.queue.remove(0);
        proof {
            assert(self@.queue =~= v.queue.drop_first());
        }
        match m {
            Message::NewJob(id) => {
                self.workers.set(w, WorkerState::Executing(id));
                self.started = Ghost(self.started@.push(id));
                proof {
                    let n = v.started.len();
                    assert(job_ids(v.queue) == seq![id] + job_ids(v.queue.drop_first()));
                    assert(v.started + job_ids(v.queue) == ids_upto(v.submitted));
                    assert((v.started + job_ids(v.queue))[n as int] == id);
                    assert(job_ids(v.queue).len() >= 1);
                    assert(ids_upto(v.submitted).len() == v.submitted);
                    assert(n < v.submitted);
                    assert(ids_upto(v.submitted)[n as int] == n as u64);
                    assert(id == n);
                    assert(self@.started + job_ids(self@.queue) =~= v.started + job_ids(v.queue));
                    assert forall|k: int| 0 <= k < n implies v.started[k] == k by {
                        assert((v.started + job_ids(v.queue))[k] == v.started[k]);
                    }
                    assert(!v.started.contains(id));
                    assert(!v.completed.contains(id));
                    lemma_stopped_update(v.workers, w as int, WorkerState::Executing(id));
                    assert(terminate_count(v.queue) == terminate_count(self@.queue));
                    assert forall|x: u64| #[trigger]
                        self@.started.contains(x) implies self@.completed.contains(x) || runs(
                        self@.workers,
                        x,
                    ) by {
                        if x == id {
                            assert(self@.workers[w as int] == WorkerState::Executing(id));
                        } else {
                            assert(v.started.contains(x));
                            if !v.completed.contains(x) {
                                let u = choose|u: int|
                                    0 <= u < v.workers.len() && v.workers[u]
                                        == WorkerState::Executing(x);
                                assert(u != w);
                                assert(self@.workers[u] == WorkerState::Executing(x));
                            }
                        }
                    }
                    assert forall|x: u64| #[trigger]
                        self@.completed.contains(x) implies self@.started.contains(x) by {
                        assert(v.started.contains(x));
                        let k = choose|k: int| 0 <= k < v.started.len() && v.started[k] == x;
                        assert(self@.started[k] == x);
                    }
                    assert forall|u: int, x: u64|
                        0 <= u < self@.workers.len() && self@.workers[u]
                            == WorkerState::Executing(x) implies self@.started.contains(x)
                        && !self@.completed.contains(x) by {
                        if u != w {
                            assert(v.workers[u] == WorkerState::Executing(x));
                            assert(v.started.contains(x) && !v.completed.contains(x));
                            let k = choose|k: int| 0 <= k < v.started.len() && v.started[k] == x;
                            assert(self@.started[k] == x);
                        } else {
                            assert(self@.started[n as int] == x);
                        }
                    }
                    if v.workers.len() == 1 {
                        assert(v.completed == v.started);
                        assert(self@.started.drop_last() =~= v.started);
                    }
                }
            },
            Message::Terminate => {
                self.workers.set(w, WorkerState::Terminated);
                proof {
                    assert forall|i: int| 0 <= i < v.queue.len() implies v.queue[i] is Terminate by {
                        if i > 0 {
                            assert(v.queue[0] is Terminate);
                        }
                    }
                    lemma_all_terminate(v.queue);
                    lemma_all_terminate(v.queue.drop_first());
                    lemma_stopped_update(v.workers, w as int, WorkerState::Terminated);
                    assert(v.shutting_down);
                    assert forall|x: u64| #[trigger]
                        self@.started.contains(x) implies self@.completed.contains(x) || runs(
                        self@.workers,
                        x,
                    ) by {
                        if !v.completed.contains(x) {
                            let u = choose|u: int|
                                0 <= u < v.workers.len() && v.workers[u] == WorkerState::Executing(
                                    x,
                                );
                            assert(u != w);
                            assert(self@.workers[u] == WorkerState::Executing(x));
                        }
                    }
                    assert(self@.started + job_ids(self@.queue) =~= v.started + job_ids(v.queue));
                }
            },
        }
        Some(m)
    }

    /// Worker `w` reports that its job has returned: the job is recorded as completed
    /// and the worker is idle again. Returns false, changing nothing, when `w` was not
    /// running a job.
    pub fn finish(&mut self, w: usize) -> (r: bool)
        requires
            old(self)@.wf(),
        ensures
            final(self)@.wf(),
            r <==> w < old(self)@.workers.len() && old(self)@.workers[w as int] is Executing,
            !r ==> final(self)@ == old(self)@,
            r ==> final(self)@ == (PoolView {
                workers: old(self)@.workers.update(w as int, WorkerState::Idle),
                completed: old(self)@.completed.push(old(self)@.workers[w as int]->Executing_0),
                ..old(self)@
            }),
    {
        if w >= self.workers.len() {
            return false;
        }
        match self.workers[w] {
            WorkerState::Executing(id) => {
                let ghost v = self@;
                self.workers.set(w, WorkerState::Idle);
                self.completed = Ghost(self.completed@.push(id));
                proof {
                    lemma_stopped_update(v.workers, w as int, WorkerState::Idle);
                    assert(v.started.contains(id) && !v.completed.contains(id));
                    assert forall|x: u64| #[trigger]
                        self@.started.contains(x) implies self@.completed.contains(x) || runs(
                        self@.workers,
                        x,
                    ) by {
                        if x == id {
                            assert(self@.completed[v.completed.len() as int] == id);
                        } else if v.completed.contains(x) {
                            let k = choose|k: int|
                                0 <= k < v.completed.len() && v.completed[k] == x;
                            assert(self@.completed[k] == x);
                        } else {
                            let u = choose|u: int|
                                0 <= u < v.workers.len() && v.workers[u]
                                    == WorkerState::Executing(x);
                            assert(u != w);
                            assert(self@.workers[u] == WorkerState::Executing(x));
                        }
                    }
                    assert forall|u: int, x: u64|
                        0 <= u < self@.workers.len() && self@.workers[u]
                            == WorkerState::Executing(x) implies self@.started.contains(x)
                        && !self@.completed.contains(x) by {
                        assert(u != w);
                        assert(v.workers[u] == WorkerState::Executing(x));
                        assert(v.started.contains(x) && !v.completed.contains(x));
                        assert(x != id);
                        if self@.completed.contains(x) {
                            let k = choose|k: int|
                                0 <= k < self@.completed.len() && self@.completed[k] == x;
                            if k < v.completed.len() {
                                assert(v.completed[k] == x);
                            }
                        }
                    }
                    assert forall|x: u64| #[trigger]
                        self@.completed.contains(x) implies self@.started.contains(x) by {
                        let k = choose|k: int|
                            0 <= k < self@.completed.len() && self@.completed[k] == x;
                        if k < v.completed.len() {
                            assert(v.completed[k] == x);
                            assert(v.completed.contains(x));
                        } else {
                            assert(x == id);
                        }
                    }
                    assert forall|i: int, j: int|
                        0 <= i < j < self@.completed.len() implies self@.completed[i]
                        != self@.completed[j] by {
                        if j == v.completed.len() {
                            assert(v.completed[i] == self@.completed[i]);
                        }
                    }
                    if v.workers.len() == 1 {
                        assert(w == 0);
                        assert(self@.completed =~= self@.started);
                    }
                }
                true
            },
            _ => false,
        }
    }

    /// Begins shutdown: queues one `Terminate` per worker behind every pending job and
    /// stops accepting work. A second call changes nothing.
    pub fn shutdown(&mut self)
        requires
            old(self)@.wf(),
        ensures
            final(self)@.wf(),
            old(self)@.shutting_down ==> final(self)@ == old(self)@,
            !old(self)@.shutting_down ==> final(self)@ == (PoolView {
                queue: old(self)@.queue + Seq::new(
                    old(self)@.workers.len(),
                    |i: int| Message::Terminate,
                ),
                shutting_down: true,
                ..old(self)@
            }),
    {
        if self.shutting_down {
            return;
        }
        let ghost v = self@;
        let n = self.workers.len();
        let mut k: usize = 0;
        proof {
            lemma_no_terminate(v.queue);
            assert(self.queue@ =~= v.queue + Seq::new(0, |i: int| Message::Terminate));
        }
        while k < n
            invariant
                k <= n,
                n == v.workers.len(),
                self@ == (PoolView {
                    queue: v.queue + Seq::new(k as nat, |i: int| Message::Terminate),
                    ..v
                }),
                v.wf(),
                !v.shutting_down,
                forall|i: int| 0 <= i < v.queue.len() ==> v.queue[i] is NewJob,
                job_ids(self@.queue) == job_ids(v.queue),
                terminate_count(self@.queue) == k,
                jobs_before_terminates(self@.queue),
            decreases n - k,
        {
            let ghost q = self@.queue;
            proof {
                lemma_job_ids_push(q, Message::Terminate);
                lemma_single_message(Message::Terminate);
            }
            self.queue.push(Message::Terminate);
            k = k + 1;
            proof {
                assert(self@.queue =~= v.queue + Seq::new(k as nat, |i: int| Message::Terminate));
                assert(job_ids(self@.queue) =~= job_ids(v.queue));
            }
        }
        self.shutting_down = true;
        proof {
            assert(self@ == (PoolView {
                queue: v.queue + Seq::new(v.workers.len(), |i: int| Message::Terminate),
                shutting_down: true,
                ..v
            }));
        }
    }

    /// Records that the thread of worker `w`, which has left its loop, has been joined.
    /// Returns false, changing nothing, for a worker that is not terminated (each
    /// worker is joined once).
    pub fn join_worker(&mut self, w: usize) -> (r: bool)
        requires
            old(self)@.wf(),
        ensures
            final(self)@.wf(),
            r <==> w < old(self)@.workers.len() && old(self)@.workers[w as int] is Terminated,
            !r ==> final(self)@ == old(self)@,
            r ==> final(self)@ == (PoolView {
                workers: old(self)@.workers.update(w as int, WorkerState::Joined),
                ..old(self)@
            }),
    {
        if w >= self.workers.len() {
            return false;
        }
        if !matches!(self.workers[w], WorkerState::Terminated) {
            return false;
        }
        let ghost v = self@;
        self.workers.set(w, WorkerState::Joined);
        proof {
            lemma_stopped_update(v.workers, w as int, WorkerState::Joined);
            assert forall|x: u64| #[trigger]
                self@.started.contains(x) implies self@.completed.contains(x) || runs(
                self@.workers,
                x,
            ) by {
                if !v.completed.contains(x) {
                    let u = choose|u: int|
                        0 <= u < v.workers.len() && v.workers[u] == WorkerState::Executing(x);
                    assert(u != w);
                    assert(self@.workers[u] == WorkerState::Executing(x));
                }
            }
        }
        true
    }
}

/// Every accepted job is handed out exactly once: it has either been taken by a
/// worker or still waits in the queue, never both, and no job is taken twice.
/// A job finishes at most once.
pub proof fn lemma_job_taken_exactly_once(p: PoolView, id: u64)
    requires
        p.wf(),
        id < p.submitted,
    ensures
        p.started.contains(id) != job_ids(p.queue).contains(id),
        forall|i: int, j: int| 0 <= i < j < p.started.len() ==> p.started[i] != p.started[j],
        forall|i: int, j: int|
            0 <= i < j < p.completed.len() ==> p.completed[i] != p.completed[j],
{
    let all = p.started + job_ids(p.queue);
    let n = p.started.len();
    assert(all.len() == p.submitted);
    assert forall|k: int| 0 <= k < all.len() implies all[k] == k by {
        assert(ids_upto(p.submitted)[k] == k as u64);
    }
    assert(all[id as int] == id);
    if id < n {
        assert(p.started[id as int] == id);
        if job_ids(p.queue).contains(id) {
            let k = choose|k: int| 0 <= k < job_ids(p.queue).len() && job_ids(p.queue)[k] == id;
            assert(all[n + k] == id);
        }
    } else {
        assert(job_ids(p.queue)[id - n] == id);
        if p.started.contains(id) {
            let k = choose|k: int| 0 <= k < n && p.started[k] == id;
            assert(all[k] == id);
        }
    }
    assert forall|i: int, j: int| 0 <= i < j < p.started.len() implies p.started[i]
        != p.started[j] by {
        assert(all[i] == i && all[j] == j);
    }
}

/// At most one job runs per worker, so never more than `size` at once; every
/// accepted job that is neither finished nor running waits in the queue.
pub proof fn lemma_concurrency_bounded(p: PoolView)
    requires
        p.wf(),
    ensures
        running_count(p.workers) <= p.size(),
        forall|id: u64|
            id < p.submitted && !p.completed.contains(id) && !runs(p.workers, id)
                ==> #[trigger] job_ids(p.queue).contains(id),
{
    lemma_running_bounded(p.workers);
    assert forall|id: u64|
        id < p.submitted && !p.completed.contains(id) && !runs(
            p.workers,
            id,
        ) implies #[trigger] job_ids(p.queue).contains(id) by {
        lemma_job_taken_exactly_once(p, id);
    }
}

/// A worker can only be handed a `Terminate` once no job waits in the queue: every
/// job accepted before shutdown is handed out first.
pub proof fn lemma_terminate_comes_after_jobs(p: PoolView)
    requires
        p.wf(),
        p.queue.len() > 0,
        p.queue[0] is Terminate,
    ensures
        job_ids(p.queue).len() == 0,
{
    assert forall|i: int| 0 <= i < p.queue.len() implies p.queue[i] is Terminate by {
        if i > 0 {
            assert(p.queue[0] is Terminate);
        }
    }
    lemma_all_terminate(p.queue);
}

/// Once shutdown has begun and every worker has been joined, every job that was
/// accepted has finished, the queue is empty and no worker is left running.
pub proof fn lemma_drained_pool_finished_everything(p: PoolView)
    requires
        p.wf(),
        p.phase() == PoolPhase::Drained,
    ensures
        forall|id: u64| id < p.submitted ==> #[trigger] p.completed.contains(id),
        p.queue.len() == 0,
        p.live_count() == 0,
{
    lemma_all_joined(p.workers);
    lemma_empty_when_no_messages(p.queue);
    assert(p.started =~= ids_upto(p.submitted)) by {
        assert(p.started + job_ids(p.queue) =~= p.started);
    }
    assert forall|id: u64| id < p.submitted implies #[trigger] p.completed.contains(id) by {
        assert(p.started[id as int] == id);
        assert(p.started.contains(id));
        if !p.completed.contains(id) {
            let u = choose|u: int|
                0 <= u < p.workers.len() && p.workers[u] == WorkerState::Executing(id);
            assert(p.workers[u] is Joined);
        }
    }
}

/// Workers take jobs in submission order; with a single worker, jobs also finish
/// in submission order.
pub proof fn lemma_submission_order_kept(p: PoolView)
    requires
        p.wf(),
    ensures
        forall|i: int| 0 <= i < p.started.len() ==> p.started[i] == i,
        p.size() == 1 ==> forall|i: int| 0 <= i < p.completed.len() ==> p.completed[i] == i,
{
    assert forall|i: int| 0 <= i < p.started.len() implies p.started[i] == i by {
        assert((p.started + job_ids(p.queue)).len() == p.submitted);
        assert((p.started + job_ids(p.queue))[i] == p.started[i]);
        assert(ids_upto(p.submitted)[i] == i as u64);
    }
    if p.size() == 1 {
        assert forall|i: int| 0 <= i < p.completed.len() implies p.completed[i] == i by {
            assert(p.completed[i] == p.started[i]);
        }
    }
}

} // verus!
