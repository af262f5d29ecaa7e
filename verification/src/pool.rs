//! The render worker pool: the FIFO task queue shared by all handlers,
//! the supervisor that keeps the screenshot and PDF workers alive and
//! replaces crashed ones, and the policy a worker follows when a render
//! attempt ends.
use vstd::prelude::*;

verus! {

/// What a worker renders.
#[derive(Clone, Copy, Debug, PartialEq, Eq, Structural)]
pub enum WorkerClass {
    Screenshot,
    Pdf,
}

/// How many workers in a liveness table are alive.
pub open spec fn live_count(s: Seq<bool>) -> nat
    decreases s.len(),
{
    if s.len() == 0 {
        0
    } else {
        (if s[0] {
            1nat
        } else {
            0nat
        }) + live_count(s.drop_first())
    }
}

/// Appending a worker adds one to the live count exactly when it is
/// alive.
pub proof fn lemma_live_count_snoc(s: Seq<bool>, v: bool)
    ensures
        live_count(s.push(v)) == live_count(s) + if v {
            1nat
        } else {
            0nat
        },
    decreases s.len(),
{
    if s.len() == 0 {
        assert(s.push(v)[0] == v);
        assert(s.push(v).drop_first() =~= Seq::<bool>::empty());
        assert(live_count(Seq::<bool>::empty()) == 0);
        assert(live_count(s) == 0);
    } else {
        assert(s.push(v).drop_first() =~= s.drop_first().push(v));
        lemma_live_count_snoc(s.drop_first(), v);
        assert(s.push(v)[0] == s[0]);
    }
}

/// Flipping one worker's liveness moves the live count by exactly that
/// worker's contribution.
pub proof fn lemma_live_count_update(s: Seq<bool>, i: int, v: bool)
    requires
        0 <= i < s.len(),
    ensures
        live_count(s.update(i, v)) + (if s[i] {
            1nat
        } else {
            0nat
        }) == live_count(s) + (if v {
            1nat
        } else {
            0nat
        }),
    decreases s.len(),
{
    if i == 0 {
        assert(s.update(0, v)[0] == v);
        assert(s.update(0, v).drop_first() =~= s.drop_first());
    } else {
        assert(s.update(i, v)[0] == s[0]);
        assert(s.update(i, v).drop_first() =~= s.drop_first().update(i - 1, v));
        lemma_live_count_update(s.drop_first(), i - 1, v);
    }
}

/// The supervisor's bookkeeping: how many screenshot and PDF workers the
/// pool is meant to hold, which ids are alive, and which crashed ids
/// still await a replacement, oldest first.
pub struct Supervisor {
    pub screenshot_workers: usize,
    pub pdf_workers: usize,
    pub alive: Vec<bool>,
    pub pending: Vec<usize>,
}

impl Supervisor {
    /// The pool size the supervisor converges to.
    pub open spec fn total(self) -> int {
        self.screenshot_workers + self.pdf_workers
    }

    /// Well-formedness: one liveness slot per id; every pending id is a
    /// dead worker's, listed once; and the alive and pending workers
    /// together account for the whole pool, so no id is ever doubled.
    pub open spec fn wf(self) -> bool {
        &&& self.alive@.len() == self.total()
        &&& forall|i: int|
            0 <= i < self.pending@.len() ==> (#[trigger] self.pending@[i]) < self.alive@.len()
                && !self.alive@[self.pending@[i] as int]
        &&& forall|i: int, j: int|
            #![trigger self.pending@[i], self.pending@[j]]
            0 <= i < j < self.pending@.len() ==> self.pending@[i] != self.pending@[j]
        &&& live_count(self.alive@) + self.pending@.len() == self.total()
    }

    /// The class a worker id belongs to: the first `screenshot_workers`
    /// ids are screenshot workers, the rest PDF workers.
    pub open spec fn spec_class_of(self, id: usize) -> WorkerClass {
        if (id as int) < self.screenshot_workers {
            WorkerClass::Screenshot
        } else {
            WorkerClass::Pdf
        }
    }

    /// Starts a pool with every worker alive and nothing pending.
    pub fn new(screenshot_workers: usize, pdf_workers: usize) -> (r: Supervisor)
        requires
            screenshot_workers + pdf_workers <= usize::MAX,
        ensures
            r.wf(),
            r.screenshot_workers == screenshot_workers,
            r.pdf_workers == pdf_workers,
            r.pending@.len() == 0,
            live_count(r.alive@) == r.total(),
    {
        let total = screenshot_workers + pdf_workers;
        let mut alive: Vec<bool> = Vec::new();
        let mut i: usize = 0;
        while i < total
            invariant
                i <= total,
                alive@.len() == i,
                live_count(alive@) == i,
            decreases total - i,
        {
            proof {
                lemma_live_count_snoc(alive@, true);
            }
            alive.push(true);
            i = i + 1;
        }
        Supervisor { screenshot_workers, pdf_workers, alive, pending: Vec::new() }
    }

    /// The class of a worker id.
    pub fn class_of(&self, id: usize) -> (r: WorkerClass)
        ensures
            r == self.spec_class_of(id),
    {
        if id < self.screenshot_workers {
            WorkerClass::Screenshot
        } else {
            WorkerClass::Pdf
        }
    }

    /// Records that the worker with this id died: its id enters the
    /// replacement queue, behind earlier crashes.
    pub fn on_crash(&mut self, id: usize)
        requires
            old(self).wf(),
            id < old(self).alive@.len(),
            old(self).alive@[id as int],
        ensures
            final(self).wf(),
            final(self).screenshot_workers == old(self).screenshot_workers,
            final(self).pdf_workers == old(self).pdf_workers,
            final(self).alive@ == old(self).alive@.update(id as int, false),
            final(self).pending@ == old(self).pending@.push(id),
            live_count(final(self).alive@) + 1 == live_count(old(self).alive@),
    {
        proof {
            lemma_live_count_update(self.alive@, id as int, false);
        }
        self.alive.set(id, false);
        self.pending.push(id);
    }

    /// Takes the oldest crashed id and brings its replacement up, in the
    /// same class the id always had; answers nothing when no crash is
    /// outstanding.
    pub fn next_replacement(&mut self) -> (r: Option<(usize, WorkerClass)>)
        requires
            old(self).wf(),
        ensures
            final(self).wf(),
            final(self).screenshot_workers == old(self).screenshot_workers,
            final(self).pdf_workers == old(self).pdf_workers,
            match r {
                Some((id, class)) => {
                    &&& old(self).pending@.len() > 0
                    &&& id == old(self).pending@[0]
                    &&& class == old(self).spec_class_of(id)
                    &&& final(self).alive@ == old(self).alive@.update(id as int, true)
                    &&& final(self).pending@ == old(self).pending@.drop_first()
                    &&& live_count(final(self).alive@) == live_count(old(self).alive@) + 1
                },
                None => old(self).pending@.len() == 0 && *final(self) == *old(self),
            },
    {
        if self.pending.len() == 0 {
            return None;
        }
        let id = self.pending.remove(0);
        proof {
            assert(self.pending@ =~= old(self).pending@.drop_first());
            assert(forall|i: int|
                0 <= i < self.pending@.len() ==> #[trigger] self.pending@[i] == old(
                    self,
                ).pending@[i + 1]);
            lemma_live_count_update(self.alive@, id as int, true);
        }
        let class = self.class_of(id);
        self.alive.set(id, true);
        Some((id, class))
    }
}

/// Pool convergence: crashes may briefly shrink the pool, but every
/// crash leaves exactly one pending replacement, so once the supervisor
/// has processed them all, exactly the configured number of workers is
/// alive again — one per id, the liveness table holding one slot per
/// id.
pub proof fn lemma_pool_convergence(s: Supervisor)
    requires
        s.wf(),
        s.pending@.len() == 0,
    ensures
        live_count(s.alive@) == s.total(),
{
}

/// A task in the shared queue: an id the reply is matched back by, and
/// the payload telling a worker what to render. This is the model of
/// the queue that the running service realizes with an async channel at
/// its edge; the FIFO and exactly-once statements below attach to this
/// model.
pub struct TaskQueue<T> {
    pub items: Vec<(u64, T)>,
    pub next_id: u64,
}

impl<T> TaskQueue<T> {
    /// Well-formedness: task ids grow strictly along the queue and stay
    /// below the next id to be handed out, so no two tasks — queued now
    /// or ever — share an id.
    pub open spec fn wf(self) -> bool {
        &&& forall|i: int| 0 <= i < self.items@.len() ==> (#[trigger] self.items@[i]).0 < self.next_id
        &&& forall|i: int, j: int|
            #![trigger self.items@[i], self.items@[j]]
            0 <= i < j < self.items@.len() ==> self.items@[i].0 < self.items@[j].0
    }

    /// An empty queue.
    pub fn new() -> (r: TaskQueue<T>)
        ensures
            r.wf(),
            r.items@.len() == 0,
            r.next_id == 0u64,
    {
        TaskQueue { items: Vec::new(), next_id: 0 }
    }

    /// Enqueues a task at the back, assigning it a fresh id that no
    /// earlier or later task ever carries.
    pub fn enqueue(&mut self, payload: T) -> (r: u64)
        requires
            old(self).wf(),
            old(self).next_id < u64::MAX,
        ensures
            final(self).wf(),
            r == old(self).next_id,
            final(self).next_id == old(self).next_id + 1,
            final(self).items@ == old(self).items@.push((r, payload)),
    {
        let id = self.next_id;
        self.items.push((id, payload));
        self.next_id = self.next_id + 1;
        id
    }

    /// Dequeues the oldest task; the queue is FIFO, so it is always the
    /// head. The dequeued id leaves the queue for good.
    pub fn dequeue(&mut self) -> (r: Option<(u64, T)>)
        requires
            old(self).wf(),
        ensures
            final(self).wf(),
            final(self).next_id == old(self).next_id,
            match r {
                Some(t) => {
                    &&& old(self).items@.len() > 0
                    &&& t.0 == old(self).items@[0].0
                    &&& final(self).items@ == old(self).items@.drop_first()
                    &&& forall|i: int|
                        0 <= i < final(self).items@.len() ==> t.0 < (
                        #[trigger] final(self).items@[i]).0
                },
                None => old(self).items@.len() == 0 && final(self).items@ == old(self).items@,
            },
    {
        if self.items.len() == 0 {
            return None;
        }
        let t = self.items.remove(0);
        proof {
            assert(self.items@ =~= old(self).items@.drop_first());
            assert(forall|i: int|
                0 <= i < self.items@.len() ==> #[trigger] self.items@[i] == old(self).items@[i
                    + 1]);
        }
        Some(t)
    }
}

/// Exactly-once delivery: a dequeued task is gone — its id is strictly
/// below every id still queued and every id yet to be assigned, so no
/// sequence of enqueues and dequeues ever hands the same task to two
/// workers.
pub proof fn lemma_exactly_once<T>(q: TaskQueue<T>, delivered: u64)
    requires
        q.wf(),
        q.items@.len() > 0,
        delivered < q.items@[0].0,
    ensures
        forall|i: int| 0 <= i < q.items@.len() ==> delivered != (#[trigger] q.items@[i]).0,
        q.next_id > delivered,
{
    assert(forall|i: int|
        1 <= i < q.items@.len() ==> q.items@[0].0 < (#[trigger] q.items@[i]).0);
}

/// How one render attempt ended, as the worker sees it.
#[derive(Debug)]
pub enum RenderOutcome {
    /// The artifact is stored and signed: this is the URL to answer with.
    Completed { signed_url: String },
    /// Navigation never finished; the page can no longer be trusted.
    NavigationTimeout,
    /// Navigation failed outright.
    NavigationFailed,
    /// The capture call failed.
    CaptureFailed,
    /// The blob store refused the write.
    StoreFailed,
}

/// What the worker does after replying.
#[derive(Clone, Copy, Debug, PartialEq, Eq, Structural)]
pub enum WorkerAction {
    /// Reset the page to blank and take the next task.
    Continue,
    /// Send the own id to the supervisor and terminate.
    ReplaceSelf,
}

/// The worker's policy for one finished attempt: a completed render
/// answers its URL; a navigation timeout answers nothing and retires the
/// worker; every other failure answers nothing and the worker carries
/// on.
pub fn worker_reaction(outcome: RenderOutcome) -> (r: (Option<String>, WorkerAction))
    ensures
        match outcome {
            RenderOutcome::Completed { signed_url } => r == (
                Some(signed_url),
                WorkerAction::Continue,
            ),
            RenderOutcome::NavigationTimeout => r == (
                None::<String>,
                WorkerAction::ReplaceSelf,
            ),
            _ => r == (None::<String>, WorkerAction::Continue),
        },
{
    match outcome {
        RenderOutcome::Completed { signed_url } => (Some(signed_url), WorkerAction::Continue),
        RenderOutcome::NavigationTimeout => (None, WorkerAction::ReplaceSelf),
        RenderOutcome::NavigationFailed => (None, WorkerAction::Continue),
        RenderOutcome::CaptureFailed => (None, WorkerAction::Continue),
        RenderOutcome::StoreFailed => (None, WorkerAction::Continue),
    }
}

/// A long-lived owner of one browser page rendering screenshots.
pub struct ScreenshotWorker {
    pub id: usize,
}

impl ScreenshotWorker {
    /// A worker bound to the given pool id.
    pub fn new(id: usize) -> (r: ScreenshotWorker)
        ensures
            r.id == id,
    {
        ScreenshotWorker { id }
    }
}

/// A long-lived owner of one browser page rendering PDFs.
pub struct PDFWorker {
    pub id: usize,
}

impl PDFWorker {
    /// A worker bound to the given pool id.
    pub fn new(id: usize) -> (r: PDFWorker)
        ensures
            r.id == id,
    {
        PDFWorker { id }
    }
}

} // verus!
