//! Progress record of one bulk operation, its subscribers, and the registry
//! of such records.
//!
//! A task starts Running and ends Done, Error or Cancelled; once it has
//! ended it stays as it is. Every change of the counters is published to
//! the subscribers as an event. The event that ends a task is kept, so that
//! a client that attaches late still learns the outcome.

use vstd::prelude::*;
use crate::common::clock::now_millis;
use crate::common::string_map::StringMap;
use crate::text::{clone_opt_string, opt_chars};

verus! {

#[verifier::external_type_specification]
#[verifier::external_body]
pub struct ExJsonValue(serde_json::Value);

#[verifier::external_type_specification]
#[verifier::external_body]
#[verifier::reject_recursive_types(T)]
pub struct ExSender<T>(tokio::sync::mpsc::Sender<T>);

#[verifier::external_type_specification]
#[verifier::external_body]
#[verifier::reject_recursive_types(T)]
pub struct ExReceiver<T>(tokio::sync::mpsc::Receiver<T>);

/// Number of events that a subscriber may have waiting.
pub const SUBSCRIBER_BUFFER: usize = 200;

/// Seconds after which a task that has ended is to leave the registry.
pub const TASK_EXPIRY_SECS: u64 = 300;

/// `Clone::clone` of a JSON value: a value equal to the given one.
#[verifier::external_body]
fn json_clone(value: &serde_json::Value) -> (r: serde_json::Value)
    ensures
        r == *value,
{
    value.clone()
}

/// `Uuid::new_v4`, written as a string: a fresh random identifier. Nothing
/// is claimed of the value.
#[verifier::external_body]
fn new_task_id() -> (id: String) {
    uuid::Uuid::new_v4().to_string()
}

/// `tokio::sync::mpsc::channel`: a bounded channel with room for `buffer`
/// events. The call panics on a buffer of zero or of more than an eighth of
/// the address space, which the precondition leaves out.
#[verifier::external_body]
fn event_channel(buffer: usize) -> (r: (
    tokio::sync::mpsc::Sender<TaskEvent>,
    tokio::sync::mpsc::Receiver<TaskEvent>,
))
    requires
        0 < buffer <= usize::MAX / 8,
{
    tokio::sync::mpsc::channel(buffer)
}

/// `Sender::try_send`: hands the event to the channel without waiting, and
/// says whether the channel took it. It does not when it is full or closed.
#[verifier::external_body]
fn try_send_event(tx: &tokio::sync::mpsc::Sender<TaskEvent>, event: TaskEvent) -> (delivered: bool) {
    tx.try_send(event).is_ok()
}

/// State of a task.
#[derive(Debug, Clone, Copy, PartialEq, Eq, Structural)]
pub enum TaskStatus {
    Running,
    Done,
    Error,
    Cancelled,
}

impl TaskStatus {
    /// Whether the task has ended.
    pub open spec fn spec_is_terminal(self) -> bool {
        self != TaskStatus::Running
    }

    /// Whether the task has ended.
    pub fn is_terminal(self) -> (r: bool)
        ensures
            r == self.spec_is_terminal(),
    {
        match self {
            TaskStatus::Running => false,
            _ => true,
        }
    }

    /// The word for the state.
    pub open spec fn spec_word(self) -> Seq<char> {
        match self {
            TaskStatus::Running => "running"@,
            TaskStatus::Done => "done"@,
            TaskStatus::Error => "error"@,
            TaskStatus::Cancelled => "cancelled"@,
        }
    }

    /// The word for the state.
    pub fn word(self) -> (r: String)
        ensures
            r@ == self.spec_word(),
    {
        match self {
            TaskStatus::Running => "running".to_owned(),
            TaskStatus::Done => "done".to_owned(),
            TaskStatus::Error => "error".to_owned(),
            TaskStatus::Cancelled => "cancelled".to_owned(),
        }
    }
}

/// The counters of a task.
#[derive(Debug, Clone, Copy, PartialEq, Eq, Structural)]
pub struct TaskCounters {
    /// Number of items of the operation.
    pub total: usize,
    /// Number of items recorded.
    pub processed: usize,
    /// Number of items recorded as succeeded.
    pub ok: usize,
    /// Number of items recorded as failed.
    pub fail: usize,
}

impl TaskCounters {
    /// The counters after one more item.
    pub open spec fn spec_record(self, ok: bool) -> TaskCounters {
        TaskCounters {
            total: self.total,
            processed: (self.processed + 1) as usize,
            ok: if ok {
                (self.ok + 1) as usize
            } else {
                self.ok
            },
            fail: if ok {
                self.fail
            } else {
                (self.fail + 1) as usize
            },
        }
    }

    /// Every recorded item either succeeded or failed.
    pub open spec fn wf(self) -> bool {
        self.ok + self.fail == self.processed
    }
}

/// What subscribers are told.
#[derive(Debug)]
pub enum TaskEvent {
    /// One more item was recorded.
    Progress {
        task_id: String,
        counters: TaskCounters,
        item: Option<serde_json::Value>,
        detail: Option<serde_json::Value>,
        error: Option<String>,
    },
    /// The task ended with a result.
    Done { task_id: String, counters: TaskCounters, warning: Option<String>, result: serde_json::Value },
    /// The task ended with an error.
    Error { task_id: String, counters: TaskCounters, message: String },
    /// The task ended because it was cancelled.
    Cancelled { task_id: String, counters: TaskCounters },
}

/// The mathematical value of an event.
pub enum TaskEventView {
    Progress {
        task_id: Seq<char>,
        counters: TaskCounters,
        item: Option<serde_json::Value>,
        detail: Option<serde_json::Value>,
        error: Option<Seq<char>>,
    },
    Done {
        task_id: Seq<char>,
        counters: TaskCounters,
        warning: Option<Seq<char>>,
        result: serde_json::Value,
    },
    Error { task_id: Seq<char>, counters: TaskCounters, message: Seq<char> },
    Cancelled { task_id: Seq<char>, counters: TaskCounters },
}

impl View for TaskEvent {
    type V = TaskEventView;

    open spec fn view(&self) -> TaskEventView {
        match *self {
            TaskEvent::Progress { task_id, counters, item, detail, error } => TaskEventView::Progress {
                task_id: task_id@,
                counters,
                item,
                detail,
                error: opt_chars(error),
            },
            TaskEvent::Done { task_id, counters, warning, result } => TaskEventView::Done {
                task_id: task_id@,
                counters,
                warning: opt_chars(warning),
                result,
            },
            TaskEvent::Error { task_id, counters, message } => TaskEventView::Error {
                task_id: task_id@,
                counters,
                message: message@,
            },
            TaskEvent::Cancelled { task_id, counters } => TaskEventView::Cancelled {
                task_id: task_id@,
                counters,
            },
        }
    }
}

impl TaskEventView {
    /// Whether the event ends a task.
    pub open spec fn is_terminal(self) -> bool {
        !(self is Progress)
    }

    /// The word for the kind of the event.
    pub open spec fn event_type(self) -> Seq<char> {
        match self {
            TaskEventView::Progress { .. } => "progress"@,
            TaskEventView::Done { .. } => "done"@,
            TaskEventView::Error { .. } => "error"@,
            TaskEventView::Cancelled { .. } => "cancelled"@,
        }
    }

    /// The state of a task that this event ended; Running for a progress event.
    pub open spec fn status(self) -> TaskStatus {
        match self {
            TaskEventView::Progress { .. } => TaskStatus::Running,
            TaskEventView::Done { .. } => TaskStatus::Done,
            TaskEventView::Error { .. } => TaskStatus::Error,
            TaskEventView::Cancelled { .. } => TaskStatus::Cancelled,
        }
    }
}

/// A copy of an optional JSON value.
fn clone_opt_json(value: &Option<serde_json::Value>) -> (r: Option<serde_json::Value>)
    ensures
        r == *value,
{
    match value {
        Some(v) => Some(json_clone(v)),
        None => None,
    }
}

impl TaskEvent {
    /// Whether the event ends a task.
    pub fn is_terminal(&self) -> (r: bool)
        ensures
            r == self@.is_terminal(),
    {
        match self {
            TaskEvent::Progress { .. } => false,
            _ => true,
        }
    }

    /// The word for the kind of the event.
    pub fn event_type(&self) -> (r: String)
        ensures
            r@ == self@.event_type(),
    {
        match self {
            TaskEvent::Progress { .. } => "progress".to_owned(),
            TaskEvent::Done { .. } => "done".to_owned(),
            TaskEvent::Error { .. } => "error".to_owned(),
            TaskEvent::Cancelled { .. } => "cancelled".to_owned(),
        }
    }

    /// A copy of the event.
    pub fn clone_event(&self) -> (r: TaskEvent)
        ensures
            r@ == self@,
    {
        match self {
            TaskEvent::Progress { task_id, counters, item, detail, error } => TaskEvent::Progress {
                task_id: task_id.clone(),
                counters: *counters,
                item: clone_opt_json(item),
                detail: clone_opt_json(detail),
                error: clone_opt_string(error),
            },
            TaskEvent::Done { task_id, counters, warning, result } => TaskEvent::Done {
                task_id: task_id.clone(),
                counters: *counters,
                warning: clone_opt_string(warning),
                result: json_clone(result),
            },
            TaskEvent::Error { task_id, counters, message } => TaskEvent::Error {
                task_id: task_id.clone(),
                counters: *counters,
                message: message.clone(),
            },
            TaskEvent::Cancelled { task_id, counters } => TaskEvent::Cancelled {
                task_id: task_id.clone(),
                counters: *counters,
            },
        }
    }
}

/// A summary of a task at one point in time.
#[derive(Debug)]
pub struct TaskSnapshot {
    pub task_id: String,
    pub status: TaskStatus,
    pub counters: TaskCounters,
    pub warning: Option<String>,
}

/// The part of `s` that `keep` keeps, in order.
pub open spec fn spec_kept<A>(s: Seq<A>, keep: Seq<bool>) -> Seq<A>
    decreases s.len(),
{
    if s.len() == 0 || keep.len() != s.len() {
        Seq::empty()
    } else {
        let rest = spec_kept(s.drop_last(), keep.drop_last());
        if keep.last() {
            rest.push(s.last())
        } else {
            rest
        }
    }
}

/// Whether `after` is what is left of `before` when some of it is dropped.
pub open spec fn spec_remainder<A>(before: Seq<A>, after: Seq<A>) -> bool {
    exists|keep: Seq<bool>| keep.len() == before.len() && after == #[trigger] spec_kept(before, keep)
}

/// One bulk operation's progress and outcome.
#[derive(Debug)]
pub struct BatchTask {
    id: String,
    counters: TaskCounters,
    status: TaskStatus,
    warning: Option<String>,
    result: Option<serde_json::Value>,
    error: Option<String>,
    created_at: i64,
    cancelled: bool,
    final_event: Option<TaskEvent>,
    queues: Vec<tokio::sync::mpsc::Sender<TaskEvent>>,
}

/// The mathematical value of a task.
pub struct BatchTaskView {
    pub id: Seq<char>,
    pub counters: TaskCounters,
    pub status: TaskStatus,
    pub warning: Option<Seq<char>>,
    pub result: Option<serde_json::Value>,
    pub error: Option<Seq<char>>,
    pub created_at: int,
    pub cancelled: bool,
    pub final_event: Option<TaskEventView>,
    pub subscribers: Seq<tokio::sync::mpsc::Sender<TaskEvent>>,
}

/// The value of an optional event.
pub open spec fn opt_event(e: Option<TaskEvent>) -> Option<TaskEventView> {
    match e {
        Some(e) => Some(e@),
        None => None,
    }
}

impl View for BatchTask {
    type V = BatchTaskView;

    closed spec fn view(&self) -> BatchTaskView {
        BatchTaskView {
            id: self.id@,
            counters: self.counters,
            status: self.status,
            warning: opt_chars(self.warning),
            result: self.result,
            error: opt_chars(self.error),
            created_at: self.created_at as int,
            cancelled: self.cancelled,
            final_event: opt_event(self.final_event),
            subscribers: self.queues@,
        }
    }
}

impl BatchTaskView {
    /// The invariant of a task: every recorded item succeeded or failed, and
    /// the task has ended exactly if it keeps the event that ended it.
    pub open spec fn wf(self) -> bool {
        &&& self.counters.wf()
        &&& self.status.spec_is_terminal() <==> self.final_event is Some
        &&& self.final_event matches Some(e) ==> e.status() == self.status
    }

    /// A task that was just created.
    pub open spec fn fresh(id: Seq<char>, total: usize, now: int) -> BatchTaskView {
        BatchTaskView {
            id,
            counters: TaskCounters { total, processed: 0, ok: 0, fail: 0 },
            status: TaskStatus::Running,
            warning: None,
            result: None,
            error: None,
            created_at: now,
            cancelled: false,
            final_event: None,
            subscribers: Seq::empty(),
        }
    }

    /// The event that tells of one more item.
    pub open spec fn progress_event(
        self,
        ok: bool,
        item: Option<serde_json::Value>,
        detail: Option<serde_json::Value>,
        error: Option<Seq<char>>,
    ) -> TaskEventView {
        TaskEventView::Progress {
            task_id: self.id,
            counters: self.counters.spec_record(ok),
            item,
            detail,
            error,
        }
    }

    /// The task after one more item, but for its subscribers.
    pub open spec fn record(self, ok: bool) -> BatchTaskView {
        BatchTaskView { counters: self.counters.spec_record(ok), ..self }
    }

    /// The event that ends the task with a result.
    pub open spec fn done_event(self, result: serde_json::Value, warning: Option<Seq<char>>) -> TaskEventView {
        TaskEventView::Done { task_id: self.id, counters: self.counters, warning, result }
    }

    /// The task after it ended with a result, but for its subscribers; a
    /// task that had ended before is as it was.
    pub open spec fn finish(self, result: serde_json::Value, warning: Option<Seq<char>>) -> BatchTaskView {
        if self.status.spec_is_terminal() {
            self
        } else {
            BatchTaskView {
                status: TaskStatus::Done,
                result: Some(result),
                warning,
                final_event: Some(self.done_event(result, warning)),
                ..self
            }
        }
    }

    /// The event that ends the task with an error.
    pub open spec fn error_event(self, error: Seq<char>) -> TaskEventView {
        TaskEventView::Error { task_id: self.id, counters: self.counters, message: error }
    }

    /// The task after it ended with an error, but for its subscribers; a
    /// task that had ended before is as it was.
    pub open spec fn fail_task(self, error: Seq<char>) -> BatchTaskView {
        if self.status.spec_is_terminal() {
            self
        } else {
            BatchTaskView {
                status: TaskStatus::Error,
                error: Some(error),
                final_event: Some(self.error_event(error)),
                ..self
            }
        }
    }

    /// The event that ends the task as cancelled.
    pub open spec fn cancelled_event(self) -> TaskEventView {
        TaskEventView::Cancelled { task_id: self.id, counters: self.counters }
    }

    /// The task after it ended as cancelled, but for its subscribers; a task
    /// that had ended before is as it was.
    pub open spec fn finish_cancelled(self) -> BatchTaskView {
        if self.status.spec_is_terminal() {
            self
        } else {
            BatchTaskView {
                status: TaskStatus::Cancelled,
                final_event: Some(self.cancelled_event()),
                ..self
            }
        }
    }

    /// The task with other subscribers.
    pub open spec fn with_subscribers(
        self,
        subscribers: Seq<tokio::sync::mpsc::Sender<TaskEvent>>,
    ) -> BatchTaskView {
        BatchTaskView { subscribers, ..self }
    }

    /// Whether `after` is the same record with some of its subscribers dropped.
    pub open spec fn published(self, after: BatchTaskView) -> bool {
        after == self.with_subscribers(after.subscribers) && spec_remainder(
            self.subscribers,
            after.subscribers,
        )
    }
}

impl BatchTask {
    /// A task for `total` items with the given identifier, created at `now`.
    pub fn new_at(id: String, total: usize, now: i64) -> (r: Self)
        ensures
            r@ == BatchTaskView::fresh(id@, total, now as int),
            r@.wf(),
    {
        BatchTask {
            id,
            counters: TaskCounters { total, processed: 0, ok: 0, fail: 0 },
            status: TaskStatus::Running,
            warning: None,
            result: None,
            error: None,
            created_at: now,
            cancelled: false,
            final_event: None,
            queues: Vec::new(),
        }
    }

    /// A task for `total` items with a fresh identifier, created now.
    pub fn new(total: usize) -> (r: Self)
        ensures
            r@ == BatchTaskView::fresh(r@.id, total, r@.created_at),
            r@.wf(),
    {
        BatchTask::new_at(new_task_id(), total, now_millis())
    }

    /// The identifier.
    pub fn id(&self) -> (r: &String)
        ensures
            r@ == self@.id,
    {
        &self.id
    }

    /// The counters.
    pub fn counters(&self) -> (r: TaskCounters)
        ensures
            r == self@.counters,
    {
        self.counters
    }

    /// The state.
    pub fn status(&self) -> (r: TaskStatus)
        ensures
            r == self@.status,
    {
        self.status
    }

    /// The warning that came with the result, if any.
    pub fn warning(&self) -> (r: &Option<String>)
        ensures
            opt_chars(*r) == self@.warning,
    {
        &self.warning
    }

    /// The result, once the task is Done.
    pub fn result(&self) -> (r: &Option<serde_json::Value>)
        ensures
            *r == self@.result,
    {
        &self.result
    }

    /// The error, once the task ended with one.
    pub fn error(&self) -> (r: &Option<String>)
        ensures
            opt_chars(*r) == self@.error,
    {
        &self.error
    }

    /// Time of creation.
    pub fn created_at(&self) -> (r: i64)
        ensures
            r == self@.created_at,
    {
        self.created_at
    }

    /// Whether cancellation was asked for.
    pub fn is_cancelled(&self) -> (r: bool)
        ensures
            r == self@.cancelled,
    {
        self.cancelled
    }

    /// Number of subscribers.
    pub fn subscriber_count(&self) -> (n: usize)
        ensures
            n == self@.subscribers.len(),
    {
        self.queues.len()
    }

    /// A summary of the task as it is now.
    pub fn snapshot(&self) -> (r: TaskSnapshot)
        ensures
            r.task_id@ == self@.id,
            r.status == self@.status,
            r.counters == self@.counters,
            opt_chars(r.warning) == self@.warning,
    {
        TaskSnapshot {
            task_id: self.id.clone(),
            status: self.status,
            counters: self.counters,
            warning: clone_opt_string(&self.warning),
        }
    }

    /// Adds a subscriber and hands out the receiving end of its channel.
    pub fn attach(&mut self) -> (rx: tokio::sync::mpsc::Receiver<TaskEvent>)
        ensures
            final(self)@.subscribers.len() == old(self)@.subscribers.len() + 1,
            final(self)@.subscribers.drop_last() == old(self)@.subscribers,
            final(self)@ == old(self)@.with_subscribers(final(self)@.subscribers),
    {
        let (tx, rx) = event_channel(SUBSCRIBER_BUFFER);
        self.queues.push(tx);
        assert(self.queues@.drop_last() =~= old(self).queues@);
        rx
    }

    /// Keeps the subscribers whose flag is set, in order, and drops the
    /// others. Nothing else of the task changes.
    pub fn retain_delivered(&mut self, delivered: &Vec<bool>)
        requires
            delivered.len() == old(self)@.subscribers.len(),
        ensures
            final(self)@ == old(self)@.with_subscribers(
                spec_kept(old(self)@.subscribers, delivered@),
            ),
    {
        let ghost before = self.queues@;
        let ghost flags = delivered@;
        let mut i: usize = 0;
        let mut k: usize = 0;
        proof {
            assert(before.take(0) =~= Seq::empty());
            assert(self.queues@.take(0) =~= Seq::empty());
            assert(self.queues@.skip(0) =~= before.skip(0));
        }
        while k < delivered.len()
            invariant
                self.id == old(self).id,
                self.counters == old(self).counters,
                self.status == old(self).status,
                self.warning == old(self).warning,
                self.result == old(self).result,
                self.error == old(self).error,
                self.created_at == old(self).created_at,
                self.cancelled == old(self).cancelled,
                self.final_event == old(self).final_event,
                before == old(self).queues@,
                flags == delivered@,
                flags.len() == before.len(),
                i <= k <= before.len(),
                i <= self.queues.len(),
                self.queues.len() - i == before.len() - k,
                self.queues@.take(i as int) == spec_kept(before.take(k as int), flags.take(k as int)),
                self.queues@.skip(i as int) == before.skip(k as int),
            decreases delivered.len() - k,
        {
            let ghost cur = self.queues@;
            proof {
                assert(cur[i as int] == cur.skip(i as int)[0]);
                assert(before[k as int] == before.skip(k as int)[0]);
                assert(before.skip(k as int).skip(1) =~= before.skip(k + 1));
                assert(before.take(k + 1).drop_last() =~= before.take(k as int));
                assert(before.take(k + 1).last() == before[k as int]);
                assert(flags.take(k + 1).drop_last() =~= flags.take(k as int));
                assert(flags.take(k + 1).last() == flags[k as int]);
            }
            if delivered[k] {
                proof {
                    assert(cur.take(i + 1) =~= cur.take(i as int).push(cur[i as int]));
                    assert(cur.skip(i + 1) =~= cur.skip(i as int).skip(1));
                }
                i += 1;
            } else {
                self.queues.remove(i);
                proof {
                    assert(self.queues@.take(i as int) =~= cur.take(i as int));
                    assert(self.queues@.skip(i as int) =~= cur.skip(i as int).skip(1));
                }
            }
            k += 1;
        }
        proof {
            assert(before.take(k as int) =~= before);
            assert(flags.take(k as int) =~= flags);
            assert(self.queues@.take(i as int) =~= self.queues@);
        }
    }

    /// Offers a copy of the event to every subscriber, in their order and
    /// without waiting, and drops each subscriber whose channel did not
    /// take it: one that is full, or one whose receiver is gone.
    pub fn publish(&mut self, event: TaskEvent)
        ensures
            old(self)@.published(final(self)@),
    {
        let mut delivered: Vec<bool> = Vec::new();
        let mut i: usize = 0;
        while i < self.queues.len()
            invariant
                i <= self.queues.len(),
                delivered.len() == i,
            decreases self.queues.len() - i,
        {
            delivered.push(try_send_event(&self.queues[i], event.clone_event()));
            i += 1;
        }
        self.retain_delivered(&delivered);
    }

    /// Counts one more item, succeeded or failed, and makes the event that
    /// tells of it. What comes with the item goes into the event only.
    pub fn progress(
        &mut self,
        ok: bool,
        item: Option<serde_json::Value>,
        detail: Option<serde_json::Value>,
        error: Option<String>,
    ) -> (event: TaskEvent)
        requires
            old(self)@.counters.wf(),
            old(self)@.counters.processed < usize::MAX,
        ensures
            final(self)@ == old(self)@.record(ok),
            event@ == old(self)@.progress_event(ok, item, detail, opt_chars(error)),
            final(self)@.counters.wf(),
    {
        self.counters.processed = self.counters.processed + 1;
        if ok {
            self.counters.ok = self.counters.ok + 1;
        } else {
            self.counters.fail = self.counters.fail + 1;
        }
        TaskEvent::Progress {
            task_id: self.id.clone(),
            counters: self.counters,
            item,
            detail,
            error,
        }
    }

    /// Records one more item, succeeded or failed, and tells the
    /// subscribers.
    pub fn record(
        &mut self,
        ok: bool,
        item: Option<serde_json::Value>,
        detail: Option<serde_json::Value>,
        error: Option<String>,
    )
        requires
            old(self)@.counters.wf(),
            old(self)@.counters.processed < usize::MAX,
        ensures
            old(self)@.record(ok).published(final(self)@),
            final(self)@.counters.wf(),
            final(self)@.wf() == old(self)@.wf(),
    {
        let event = self.progress(ok, item, detail, error);
        self.publish(event);
    }

    /// Ends the task with a result, keeps the event that says so and tells
    /// the subscribers. A task that has ended is left as it is.
    pub fn finish(&mut self, result: serde_json::Value, warning: Option<String>)
        ensures
            old(self)@.finish(result, opt_chars(warning)).published(final(self)@),
            old(self)@.wf() ==> final(self)@.wf(),
    {
        if self.status.is_terminal() {
            assert(self.queues@ == spec_kept(self.queues@, Seq::new(self.queues@.len(), |i: int| true))) by {
                lemma_keep_all(self.queues@);
            }
            return ;
        }
        self.status = TaskStatus::Done;
        self.result = Some(json_clone(&result));
        self.warning = clone_opt_string(&warning);
        let event = TaskEvent::Done {
            task_id: self.id.clone(),
            counters: self.counters,
            warning,
            result,
        };
        self.final_event = Some(event.clone_event());
        self.publish(event);
    }

    /// Ends the task with an error, keeps the event that says so and tells
    /// the subscribers. A task that has ended is left as it is.
    pub fn fail_task(&mut self, error: String)
        ensures
            old(self)@.fail_task(error@).published(final(self)@),
            old(self)@.wf() ==> final(self)@.wf(),
    {
        if self.status.is_terminal() {
            assert(self.queues@ == spec_kept(self.queues@, Seq::new(self.queues@.len(), |i: int| true))) by {
                lemma_keep_all(self.queues@);
            }
            return ;
        }
        self.status = TaskStatus::Error;
        self.error = Some(error.clone());
        let event = TaskEvent::Error {
            task_id: self.id.clone(),
            counters: self.counters,
            message: error,
        };
        self.final_event = Some(event.clone_event());
        self.publish(event);
    }

    /// Asks for cancellation. The task does not end by this: whoever runs
    /// the operation sees the flag and ends the task.
    pub fn cancel(&mut self)
        ensures
            final(self)@ == (BatchTaskView { cancelled: true, ..old(self)@ }),
    {
        self.cancelled = true;
    }

    /// Ends the task as cancelled, keeps the event that says so and tells
    /// the subscribers. A task that has ended is left as it is.
    pub fn finish_cancelled(&mut self)
        ensures
            old(self)@.finish_cancelled().published(final(self)@),
            old(self)@.wf() ==> final(self)@.wf(),
    {
        if self.status.is_terminal() {
            assert(self.queues@ == spec_kept(self.queues@, Seq::new(self.queues@.len(), |i: int| true))) by {
                lemma_keep_all(self.queues@);
            }
            return ;
        }
        self.status = TaskStatus::Cancelled;
        let event = TaskEvent::Cancelled { task_id: self.id.clone(), counters: self.counters };
        self.final_event = Some(event.clone_event());
        self.publish(event);
    }

    /// The event that ended the task, if it has ended.
    pub fn final_event(&self) -> (r: Option<TaskEvent>)
        ensures
            opt_event(r) == self@.final_event,
    {
        match &self.final_event {
            Some(e) => Some(e.clone_event()),
            None => None,
        }
    }
}

/// Keeping everything leaves a sequence as it is.
pub proof fn lemma_keep_all<A>(s: Seq<A>)
    ensures
        spec_kept(s, Seq::new(s.len(), |i: int| true)) == s,
    decreases s.len(),
{
    let keep = Seq::new(s.len(), |i: int| true);
    if s.len() > 0 {
        lemma_keep_all(s.drop_last());
        assert(keep.drop_last() =~= Seq::new(s.drop_last().len(), |i: int| true));
        assert(spec_kept(s, keep) =~= s);
    } else {
        assert(spec_kept(s, keep) =~= s);
    }
}

/// What is left of a sequence when some of it is dropped is no longer than it was.
pub proof fn lemma_kept_len<A>(s: Seq<A>, keep: Seq<bool>)
    ensures
        spec_kept(s, keep).len() <= s.len(),
    decreases s.len(),
{
    if s.len() > 0 && keep.len() == s.len() {
        lemma_kept_len(s.drop_last(), keep.drop_last());
    }
}

/// A task that has ended is not changed by ending it again, in whatever way.
pub proof fn lemma_terminal_is_final(
    task: BatchTaskView,
    result: serde_json::Value,
    warning: Option<Seq<char>>,
    error: Seq<char>,
)
    requires
        task.status.spec_is_terminal(),
    ensures
        task.finish(result, warning) == task,
        task.fail_task(error) == task,
        task.finish_cancelled() == task,
        task.record(true).status == task.status,
        task.record(false).status == task.status,
{
}

/// Ending a running task puts it into exactly one of the three final
/// states and keeps the event that says which.
pub proof fn lemma_ending_is_recorded(
    task: BatchTaskView,
    result: serde_json::Value,
    warning: Option<Seq<char>>,
    error: Seq<char>,
)
    requires
        task.wf(),
        task.status == TaskStatus::Running,
    ensures
        task.finish(result, warning).status == TaskStatus::Done,
        task.finish(result, warning).final_event == Some(task.done_event(result, warning)),
        task.finish(result, warning).wf(),
        task.fail_task(error).status == TaskStatus::Error,
        task.fail_task(error).final_event == Some(task.error_event(error)),
        task.fail_task(error).wf(),
        task.finish_cancelled().status == TaskStatus::Cancelled,
        task.finish_cancelled().final_event == Some(task.cancelled_event()),
        task.finish_cancelled().wf(),
{
}

/// What a stream of a task's progress sends to its client.
#[derive(Debug)]
pub enum StreamItem {
    /// The summary of the task at the time of connecting.
    Snapshot(TaskSnapshot),
    /// An event of the task.
    Event(TaskEvent),
    /// A sign of life while nothing happens.
    Heartbeat,
}

/// What a stream learns while it waits for the next event.
#[derive(Debug)]
pub enum StreamInput {
    /// An event arrived on the subscriber's channel.
    Event(TaskEvent),
    /// The channel was closed.
    Closed,
    /// Nothing arrived within the heartbeat interval.
    Timeout,
}

/// What a stream is to do: what to send, and whether to end afterwards.
#[derive(Debug)]
pub struct StreamOutput {
    pub emits: Vec<StreamItem>,
    pub stop: bool,
}

/// Whether the item is the summary of the task.
pub open spec fn spec_is_snapshot_of(item: StreamItem, task: BatchTaskView) -> bool {
    item matches StreamItem::Snapshot(s) && s.task_id@ == task.id && s.status == task.status
        && s.counters == task.counters && opt_chars(s.warning) == task.warning
}

/// Whether the item is the given event.
pub open spec fn spec_is_event(item: StreamItem, event: TaskEventView) -> bool {
    item matches StreamItem::Event(e) && e@ == event
}

/// What a stream does when a client connects: it sends the summary of the
/// task; if the task has ended, it sends the event that ended it and ends.
pub fn stream_start(task: &BatchTask) -> (r: StreamOutput)
    ensures
        r.stop == task@.final_event is Some,
        r.emits.len() == if r.stop {
            2int
        } else {
            1int
        },
        spec_is_snapshot_of(r.emits[0], task@),
        r.stop ==> spec_is_event(r.emits[1], task@.final_event->0),
{
    let mut emits: Vec<StreamItem> = Vec::new();
    emits.push(StreamItem::Snapshot(task.snapshot()));
    match task.final_event() {
        Some(e) => {
            emits.push(StreamItem::Event(e));
            StreamOutput { emits, stop: true }
        },
        None => StreamOutput { emits, stop: false },
    }
}

/// What a stream does with what it learnt while waiting. An event is
/// passed on, and ends the stream if it ends the task. A closed channel
/// ends the stream. After a heartbeat interval without an event the stream
/// sends a heartbeat; if the task has ended meanwhile, it sends the event
/// that ended it and ends.
pub fn stream_step(task: &BatchTask, input: StreamInput) -> (r: StreamOutput)
    ensures
        match input {
            StreamInput::Event(e) => r.emits.len() == 1 && spec_is_event(r.emits[0], e@) && r.stop
                == e@.is_terminal(),
            StreamInput::Closed => r.emits.len() == 0 && r.stop,
            StreamInput::Timeout => r.stop == task@.final_event is Some && r.emits.len() == if r.stop {
                2int
            } else {
                1int
            } && r.emits[0] is Heartbeat && (r.stop ==> spec_is_event(
                r.emits[1],
                task@.final_event->0,
            )),
        },
{
    let mut emits: Vec<StreamItem> = Vec::new();
    match input {
        StreamInput::Event(e) => {
            let stop = e.is_terminal();
            emits.push(StreamItem::Event(e));
            StreamOutput { emits, stop }
        },
        StreamInput::Closed => StreamOutput { emits, stop: true },
        StreamInput::Timeout => {
            emits.push(StreamItem::Heartbeat);
            match task.final_event() {
                Some(e) => {
                    emits.push(StreamItem::Event(e));
                    StreamOutput { emits, stop: true }
                },
                None => StreamOutput { emits, stop: false },
            }
        },
    }
}

/// The tasks of a process, by identifier.
#[derive(Debug)]
pub struct TaskRegistry {
    tasks: StringMap<BatchTask>,
}

impl View for TaskRegistry {
    type V = Map<Seq<char>, BatchTask>;

    closed spec fn view(&self) -> Map<Seq<char>, BatchTask> {
        self.tasks@
    }
}

impl TaskRegistry {
    /// The invariant of the registry: every task is kept under its own identifier.
    pub closed spec fn wf(&self) -> bool {
        &&& self.tasks.wf()
        &&& forall|id: Seq<char>| self.tasks@.dom().contains(id) ==> (#[trigger] self.tasks@[id])@.id == id
    }

    /// What the invariant says of the tasks.
    pub proof fn lemma_wf(&self)
        requires
            self.wf(),
        ensures
            self@.dom().finite(),
            forall|id: Seq<char>| self@.dom().contains(id) ==> (#[trigger] self@[id])@.id == id,
    {
        self.tasks.lemma_entries();
    }

    /// A registry without tasks.
    pub fn new() -> (r: Self)
        ensures
            r.wf(),
            r@ == Map::<Seq<char>, BatchTask>::empty(),
    {
        TaskRegistry { tasks: StringMap::new() }
    }

    /// Number of tasks.
    pub fn len(&self) -> (n: usize)
        requires
            self.wf(),
        ensures
            n == self@.dom().len(),
    {
        self.tasks.len()
    }

    /// Puts the task into the registry under its identifier, in place of a
    /// task that had the same.
    pub fn insert_task(&mut self, task: BatchTask)
        requires
            old(self).wf(),
        ensures
            final(self).wf(),
            final(self)@ == old(self)@.insert(task@.id, task),
    {
        let id = task.id().clone();
        self.tasks.insert(id.as_str(), task);
    }

    /// Creates a task for `total` items with a fresh identifier, puts it
    /// into the registry and returns the identifier.
    pub fn create_task(&mut self, total: usize) -> (id: String)
        requires
            old(self).wf(),
        ensures
            final(self).wf(),
            final(self)@.dom() == old(self)@.dom().insert(id@),
            final(self)@[id@]@ == BatchTaskView::fresh(id@, total, final(self)@[id@]@.created_at),
            final(self)@[id@]@.wf(),
            forall|other: Seq<char>|
                other != id@ && old(self)@.dom().contains(other) ==> final(self)@[other] == old(self)@[other],
    {
        let task = BatchTask::new(total);
        let id = task.id().clone();
        self.insert_task(task);
        id
    }

    /// The task with the given identifier.
    pub fn get_task(&self, task_id: &str) -> (r: Option<&BatchTask>)
        requires
            self.wf(),
        ensures
            r is Some <==> self@.dom().contains(task_id@),
            r matches Some(t) ==> *t == self@[task_id@] && t@.id == task_id@,
    {
        self.tasks.get(task_id)
    }

    /// The task with the given identifier, for changing in place. The
    /// invariant of the registry holds afterwards if the task keeps its
    /// identifier, as it does under every operation of a task.
    pub fn get_task_mut(&mut self, task_id: &str) -> (r: Option<&mut BatchTask>)
        requires
            old(self).wf(),
        ensures
            r is Some <==> old(self)@.dom().contains(task_id@),
            match r {
                Some(t) => *t == old(self)@[task_id@] && final(self)@ == old(self)@.insert(
                    task_id@,
                    *final(t),
                ) && ((*final(t))@.id == task_id@ ==> final(self).wf()),
                None => final(self)@ == old(self)@ && final(self).wf(),
            },
    {
        self.tasks.get_mut(task_id)
    }

    /// Takes the task with the given identifier out of the registry, and
    /// says whether there was one.
    pub fn delete_task(&mut self, task_id: &str) -> (removed: bool)
        requires
            old(self).wf(),
        ensures
            final(self).wf(),
            removed == old(self)@.dom().contains(task_id@),
            final(self)@ == old(self)@.remove(task_id@),
    {
        self.tasks.remove(task_id)
    }
}

} // verus!
