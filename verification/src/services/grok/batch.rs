//! Bounded fan-out over a list of items, chunk by chunk.
//!
//! [`BatchRun`] holds the decisions of a run: what to do next, and how the
//! run changes when a worker is launched, when one completes, and when the
//! cancellation check is made. Whoever drives it performs the actions.
//! [`run_in_batches`] drives it with a worker that is an ordinary function.

use vstd::prelude::*;
use crate::common::string_map::StringMap;
use crate::text::strings_view;

verus! {

/// What the driver of a run is to do next.
#[derive(Debug, Clone, Copy, PartialEq, Eq, Structural)]
pub enum BatchAction {
    /// Ask whether the run is cancelled, then report the answer.
    CheckCancel,
    /// Launch the worker for the item at this position, then report the launch.
    Launch(usize),
    /// Wait until a worker completes, then report its result.
    Wait,
    /// The run is over: take the results.
    Finish,
}

/// Number of set flags among the first `n`.
pub open spec fn spec_count_done(done: Seq<bool>, n: int) -> int
    decreases n,
{
    if n <= 0 {
        0
    } else {
        spec_count_done(done, n - 1) + if done[n - 1] {
            1int
        } else {
            0int
        }
    }
}

/// Setting a flag that was not set raises the count of every range that holds it.
pub proof fn lemma_count_set(done: Seq<bool>, i: int, n: int)
    requires
        0 <= i < done.len(),
        !done[i],
        0 <= n <= done.len(),
    ensures
        spec_count_done(done.update(i, true), n) == spec_count_done(done, n) + if i < n {
            1int
        } else {
            0int
        },
    decreases n,
{
    if n > 0 {
        lemma_count_set(done, i, n - 1);
    }
}

/// The count of a range is between zero and its length.
pub proof fn lemma_count_bounds(done: Seq<bool>, n: int)
    requires
        0 <= n <= done.len(),
    ensures
        0 <= spec_count_done(done, n) <= n,
        spec_count_done(done, n) == n ==> forall|i: int| 0 <= i < n ==> done[i],
        (forall|i: int| 0 <= i < n ==> done[i]) ==> spec_count_done(done, n) == n,
    decreases n,
{
    if n > 0 {
        lemma_count_bounds(done, n - 1);
    }
}

/// The items whose flag is set.
pub open spec fn spec_completed_items(items: Seq<Seq<char>>, done: Seq<bool>) -> Set<Seq<char>> {
    Set::new(|k: Seq<char>| exists|i: int| 0 <= i < items.len() && done[i] && items[i] == k)
}

/// The mathematical value of a run.
pub struct BatchRunView<T> {
    /// The items, in order.
    pub items: Seq<Seq<char>>,
    /// Ceiling on workers that are launched and not completed.
    pub max_concurrent: nat,
    /// Number of items of a chunk.
    pub batch_size: nat,
    /// Start of the current chunk.
    pub chunk_start: nat,
    /// End of the current chunk.
    pub chunk_end: nat,
    /// Number of items whose worker was launched.
    pub launched: nat,
    /// For each item, whether its worker completed.
    pub done: Seq<bool>,
    /// Number of workers that are launched and not completed.
    pub in_flight: nat,
    /// Whether the cancellation check stopped the run.
    pub cancelled: bool,
    /// The result of each completed item, by item.
    pub results: Map<Seq<char>, Result<T, String>>,
}

impl<T> BatchRunView<T> {
    /// The invariant of a run.
    pub open spec fn wf(self) -> bool {
        &&& self.max_concurrent >= 1
        &&& self.batch_size >= 1
        &&& self.chunk_start <= self.launched <= self.chunk_end <= self.items.len()
        &&& self.chunk_end - self.chunk_start <= self.batch_size
        &&& (self.chunk_start % self.batch_size == 0 || self.chunk_start == self.items.len())
        &&& (self.chunk_end == self.chunk_start || self.chunk_end == self.items.len()
            || self.chunk_end == self.chunk_start + self.batch_size)
        &&& self.done.len() == self.items.len()
        &&& forall|i: int| 0 <= i < self.done.len() && self.done[i] ==> i < self.launched
        &&& forall|i: int| 0 <= i < self.chunk_start ==> self.done[i]
        &&& self.in_flight + spec_count_done(self.done, self.launched as int) == self.launched
        &&& self.in_flight <= self.max_concurrent
        &&& self.cancelled ==> self.launched == self.chunk_end && self.chunk_end
            == self.chunk_start
        &&& self.results.dom() == spec_completed_items(self.items, self.done)
    }

    /// What is to be done next.
    pub open spec fn next_action(self) -> BatchAction {
        if self.cancelled {
            BatchAction::Finish
        } else if self.launched < self.chunk_end {
            if self.in_flight < self.max_concurrent {
                BatchAction::Launch(self.launched as usize)
            } else {
                BatchAction::Wait
            }
        } else if self.in_flight > 0 {
            BatchAction::Wait
        } else if self.launched == self.items.len() {
            BatchAction::Finish
        } else {
            BatchAction::CheckCancel
        }
    }

    /// The run after the answer to the cancellation check.
    pub open spec fn on_cancel_checked(self, cancel: bool) -> BatchRunView<T> {
        if cancel {
            BatchRunView { cancelled: true, chunk_start: self.launched, chunk_end: self.launched, ..self }
        } else {
            BatchRunView {
                chunk_start: self.launched,
                chunk_end: if self.launched + self.batch_size <= self.items.len() {
                    self.launched + self.batch_size
                } else {
                    self.items.len()
                },
                ..self
            }
        }
    }

    /// The run after the launch of the next worker.
    pub open spec fn on_launched(self) -> BatchRunView<T> {
        BatchRunView { launched: self.launched + 1, in_flight: self.in_flight + 1, ..self }
    }

    /// The run after the worker of the item at `index` completed with `result`.
    pub open spec fn on_completed(self, index: int, result: Result<T, String>) -> BatchRunView<T> {
        BatchRunView {
            done: self.done.update(index, true),
            in_flight: (self.in_flight - 1) as nat,
            results: self.results.insert(self.items[index], result),
            ..self
        }
    }

    /// Whether the worker of the item at `index` is launched and not completed.
    pub open spec fn running(self, index: int) -> bool {
        0 <= index < self.launched && !self.done[index]
    }
}

/// The state of a run.
#[derive(Debug)]
pub struct BatchRun<T> {
    items: Vec<String>,
    max_concurrent: usize,
    batch_size: usize,
    chunk_start: usize,
    chunk_end: usize,
    launched: usize,
    done: Vec<bool>,
    in_flight: usize,
    cancelled: bool,
    results: StringMap<Result<T, String>>,
}

impl<T> View for BatchRun<T> {
    type V = BatchRunView<T>;

    closed spec fn view(&self) -> BatchRunView<T> {
        BatchRunView {
            items: strings_view(self.items@),
            max_concurrent: self.max_concurrent as nat,
            batch_size: self.batch_size as nat,
            chunk_start: self.chunk_start as nat,
            chunk_end: self.chunk_end as nat,
            launched: self.launched as nat,
            done: self.done@,
            in_flight: self.in_flight as nat,
            cancelled: self.cancelled,
            results: self.results@,
        }
    }
}

impl<T> BatchRun<T> {
    /// The invariant of a run.
    pub closed spec fn wf(&self) -> bool {
        &&& self@.wf()
        &&& self.results.wf()
    }

    /// What the invariant says of the value of the run.
    pub proof fn lemma_wf(&self)
        requires
            self.wf(),
        ensures
            self@.wf(),
    {
    }

    /// A run over the items that has launched nothing yet. A ceiling or a
    /// chunk size of zero counts as one.
    pub fn new(items: Vec<String>, max_concurrent: usize, batch_size: usize) -> (r: Self)
        ensures
            r.wf(),
            r.spec_items() == items@,
            r@ == (BatchRunView::<T> {
                items: strings_view(items@),
                max_concurrent: if max_concurrent == 0 {
                    1nat
                } else {
                    max_concurrent as nat
                },
                batch_size: if batch_size == 0 {
                    1nat
                } else {
                    batch_size as nat
                },
                chunk_start: 0,
                chunk_end: 0,
                launched: 0,
                done: Seq::new(items.len() as nat, |i: int| false),
                in_flight: 0,
                cancelled: false,
                results: Map::empty(),
            }),
    {
        let mut done: Vec<bool> = Vec::new();
        let mut i: usize = 0;
        while i < items.len()
            invariant
                i <= items.len(),
                done.len() == i,
                forall|j: int| 0 <= j < i ==> !done[j],
            decreases items.len() - i,
        {
            done.push(false);
            i += 1;
        }
        assert(done@ =~= Seq::new(items.len() as nat, |i: int| false));
        assert(spec_completed_items(strings_view(items@), done@) =~= Set::empty());
        assert(Map::<Seq<char>, Result<T, String>>::empty().dom() =~= Set::empty());
        BatchRun {
            items,
            max_concurrent: if max_concurrent == 0 {
                1
            } else {
                max_concurrent
            },
            batch_size: if batch_size == 0 {
                1
            } else {
                batch_size
            },
            chunk_start: 0,
            chunk_end: 0,
            launched: 0,
            done,
            in_flight: 0,
            cancelled: false,
            results: StringMap::new(),
        }
    }

    /// What is to be done next.
    pub fn next_action(&self) -> (r: BatchAction)
        requires
            self.wf(),
        ensures
            r == self@.next_action(),
            r matches BatchAction::Launch(i) ==> i < self@.items.len(),
    {
        if self.cancelled {
            BatchAction::Finish
        } else if self.launched < self.chunk_end {
            if self.in_flight < self.max_concurrent {
                BatchAction::Launch(self.launched)
            } else {
                BatchAction::Wait
            }
        } else if self.in_flight > 0 {
            BatchAction::Wait
        } else if self.launched == self.items.len() {
            BatchAction::Finish
        } else {
            BatchAction::CheckCancel
        }
    }

    /// Number of items.
    pub fn len(&self) -> (n: usize)
        ensures
            n == self@.items.len(),
    {
        self.items.len()
    }

    /// The item at a position.
    pub fn item(&self, index: usize) -> (r: &String)
        requires
            index < self@.items.len(),
        ensures
            r@ == self@.items[index as int],
            *r == self.spec_items()[index as int],
    {
        &self.items[index]
    }

    /// The items as they are stored.
    pub closed spec fn spec_items(&self) -> Seq<String> {
        self.items@
    }

    /// Number of workers that are launched and not completed.
    pub fn in_flight(&self) -> (n: usize)
        ensures
            n == self@.in_flight,
    {
        self.in_flight
    }

    /// Whether the cancellation check stopped the run.
    pub fn is_cancelled(&self) -> (r: bool)
        ensures
            r == self@.cancelled,
    {
        self.cancelled
    }

    /// Whether the worker of the item at `index` is launched and not completed.
    pub fn is_running(&self, index: usize) -> (r: bool)
        requires
            self.wf(),
        ensures
            r == self@.running(index as int),
    {
        index < self.launched && !self.done[index]
    }

    /// Reports the answer to the cancellation check.
    pub fn on_cancel_checked(&mut self, cancel: bool)
        requires
            old(self).wf(),
            old(self)@.next_action() == BatchAction::CheckCancel,
        ensures
            final(self).wf(),
            final(self).spec_items() == old(self).spec_items(),
            final(self)@ == old(self)@.on_cancel_checked(cancel),
    {
        proof {
            lemma_count_bounds(self.done@, self.launched as int);
        }
        self.chunk_start = self.launched;
        if cancel {
            self.cancelled = true;
            self.chunk_end = self.launched;
        } else {
            self.chunk_end = if self.items.len() - self.launched >= self.batch_size {
                self.launched + self.batch_size
            } else {
                self.items.len()
            };
        }
        proof {
            let v = old(self)@;
            assert(v.launched == v.chunk_end);
            if v.chunk_end != v.items.len() && v.chunk_end != v.chunk_start {
                assert(v.chunk_end == v.chunk_start + v.batch_size);
                if v.chunk_start % v.batch_size == 0 {
                    vstd::arithmetic::div_mod::lemma_mod_add_multiples_vanish(
                        v.chunk_start as int,
                        v.batch_size as int,
                    );
                }
            }
        }
    }

    /// Reports the launch of the worker for the next item.
    pub fn on_launched(&mut self)
        requires
            old(self).wf(),
            old(self)@.next_action() is Launch,
        ensures
            final(self).wf(),
            final(self).spec_items() == old(self).spec_items(),
            final(self)@ == old(self)@.on_launched(),
    {
        proof {
            let v = old(self)@;
            assert(!v.done[v.launched as int]);
        }
        self.launched = self.launched + 1;
        self.in_flight = self.in_flight + 1;
    }

    /// Reports that the worker of the item at `index` completed with
    /// `result`, and says whether it succeeded.
    pub fn on_completed(&mut self, index: usize, result: Result<T, String>) -> (ok: bool)
        requires
            old(self).wf(),
            old(self)@.running(index as int),
        ensures
            final(self).wf(),
            final(self).spec_items() == old(self).spec_items(),
            final(self)@ == old(self)@.on_completed(index as int, result),
            ok == result is Ok,
    {
        let ok = result.is_ok();
        proof {
            lemma_count_set(self.done@, index as int, self.launched as int);
            lemma_count_bounds(self.done@, self.launched as int);
        }
        self.done.set(index, true);
        self.in_flight = self.in_flight - 1;
        self.results.insert(self.items[index].as_str(), result);
        proof {
            let v = old(self)@;
            let w = self@;
            let target = spec_completed_items(w.items, w.done);
            assert forall|k: Seq<char>| w.results.dom().contains(k) <==> target.contains(k) by {
                if w.results.dom().contains(k) {
                    if k == v.items[index as int] {
                        assert(w.done[index as int] && w.items[index as int] == k);
                    } else {
                        assert(v.results.dom().contains(k));
                        assert(spec_completed_items(v.items, v.done).contains(k));
                        let i = choose|i: int| 0 <= i < v.items.len() && v.done[i] && v.items[i] == k;
                        assert(w.done[i] && w.items[i] == k);
                    }
                }
                if target.contains(k) {
                    let i = choose|i: int| 0 <= i < w.items.len() && w.done[i] && w.items[i] == k;
                    if i != index {
                        assert(v.done[i] && v.items[i] == k);
                        assert(spec_completed_items(v.items, v.done).contains(k));
                    }
                }
            }
            assert(w.results.dom() =~= target);
        }
        ok
    }

    /// The results gathered so far, by item.
    pub fn results(&self) -> (r: &StringMap<Result<T, String>>)
        requires
            self.wf(),
        ensures
            r.wf(),
            r@ == self@.results,
    {
        &self.results
    }

    /// Ends the run and hands out the results, by item.
    pub fn into_results(self) -> (r: StringMap<Result<T, String>>)
        requires
            self.wf(),
        ensures
            r.wf(),
            r@ == self@.results,
    {
        self.results
    }
}

/// While a run goes on, never more workers are launched and not completed
/// than the ceiling allows.
pub proof fn lemma_in_flight_bounded<T>(run: BatchRunView<T>)
    requires
        run.wf(),
    ensures
        run.in_flight <= run.max_concurrent,
        run.next_action() is Launch ==> run.on_launched().in_flight <= run.max_concurrent,
{
}

/// A run that is over without having been cancelled has a result for every
/// item; if no item occurs twice, it has as many results as there are items.
pub proof fn lemma_results_complete<T>(run: BatchRunView<T>)
    requires
        run.wf(),
        run.next_action() == BatchAction::Finish,
        !run.cancelled,
    ensures
        forall|i: int| 0 <= i < run.items.len() ==> run.results.dom().contains(run.items[i]),
        run.results.dom() == run.items.to_set(),
        run.items.no_duplicates() ==> run.results.dom().len() == run.items.len(),
{
    lemma_count_bounds(run.done, run.launched as int);
    assert forall|i: int| 0 <= i < run.items.len() implies run.results.dom().contains(
        run.items[i],
    ) by {
        assert(run.done[i]);
        assert(spec_completed_items(run.items, run.done).contains(run.items[i]));
    }
    assert(run.results.dom() =~= run.items.to_set());
    if run.items.no_duplicates() {
        run.items.unique_seq_to_set();
    }
}

/// A run that was cancelled has results for the items of the chunks before
/// the check that stopped it, and for no others; their number is a multiple
/// of the chunk size, and no item occurring twice, such is the number of results.
pub proof fn lemma_results_cancelled<T>(run: BatchRunView<T>)
    requires
        run.wf(),
        run.cancelled,
    ensures
        run.results.dom() == run.items.take(run.chunk_start as int).to_set(),
        run.chunk_start % run.batch_size == 0 || run.chunk_start == run.items.len(),
        run.items.no_duplicates() ==> run.results.dom().len() == run.chunk_start,
{
    let prefix = run.items.take(run.chunk_start as int);
    assert forall|k: Seq<char>| run.results.dom().contains(k) <==> prefix.to_set().contains(
        k,
    ) by {
        if run.results.dom().contains(k) {
            assert(spec_completed_items(run.items, run.done).contains(k));
            let i = choose|i: int| 0 <= i < run.items.len() && run.done[i] && run.items[i] == k;
            assert(prefix[i] == k);
        }
        if prefix.to_set().contains(k) {
            let i = choose|i: int| 0 <= i < prefix.len() && prefix[i] == k;
            assert(run.done[i] && run.items[i] == k);
            assert(spec_completed_items(run.items, run.done).contains(k));
        }
    }
    assert(run.results.dom() =~= prefix.to_set());
    if run.items.no_duplicates() {
        prefix.unique_seq_to_set();
    }
}

/// The chunk size that a run uses: the one asked for, or one if zero was asked for.
pub open spec fn spec_chunk_size(batch_size: usize) -> int {
    if batch_size == 0 {
        1
    } else {
        batch_size as int
    }
}

/// Whether the question for cancellation can be answered with yes.
pub open spec fn spec_may_cancel<C: Fn() -> bool>(should_cancel: Option<C>) -> bool {
    should_cancel matches Some(c) && call_ensures(c, (), true)
}

/// Whether the question for cancellation is never answered with yes:
/// there is none, or every answer that it can give is no.
pub open spec fn spec_never_cancels<C: Fn() -> bool>(should_cancel: Option<C>) -> bool {
    !spec_may_cancel(should_cancel)
}

/// Runs `worker` on the items, chunk by chunk, one item at a time.
///
/// Before each chunk `should_cancel` is asked, if there is one; a yes ends
/// the run before that chunk. After each item `on_item`, if there is one, is
/// told the item and whether its worker succeeded. A worker that fails does
/// not end the run: its error is the item's result.
///
/// The results are those of the items of the chunks that ran, each result
/// one that the worker gave for that item. All chunks run unless
/// `should_cancel` says yes: without it, or with one that never does, every
/// item has its result, and a run that stopped early was told to.
pub fn run_in_batches<T, F, I, C>(
    items: Vec<String>,
    worker: F,
    max_concurrent: usize,
    batch_size: usize,
    on_item: Option<I>,
    should_cancel: Option<C>,
) -> (results: StringMap<Result<T, String>>) where
    F: Fn(String) -> Result<T, String>,
    I: Fn(String, bool) -> (),
    C: Fn() -> bool,

    requires
        forall|s: String| call_requires(worker, (s,)),
        on_item matches Some(cb) ==> forall|s: String, ok: bool| call_requires(cb, (s, ok)),
        should_cancel matches Some(c) ==> call_requires(c, ()),
    ensures
        results.wf(),
        exists|n: int|
            0 <= n <= items.len() && (n % spec_chunk_size(batch_size) == 0 || n == items.len())
                && (spec_never_cancels(should_cancel) ==> n == items.len()) && (n < items.len()
                ==> spec_may_cancel(should_cancel)) && results@.dom() == #[trigger] strings_view(
                items@,
            ).take(n).to_set(),
        forall|k: Seq<char>|
            results@.dom().contains(k) ==> exists|i: int|
                0 <= i < items.len() && items[i]@ == k && call_ensures(
                    worker,
                    (items[i],),
                    #[trigger] results@[k],
                ),
{
    let ghost orig = items@;
    let mut run: BatchRun<T> = BatchRun::new(items, max_concurrent, batch_size);
    loop
        invariant
            run.wf(),
            run.spec_items() == orig,
            run@.items == strings_view(orig),
            run@.batch_size == spec_chunk_size(batch_size),
            run@.in_flight == 0,
            run@.cancelled ==> spec_may_cancel(should_cancel),
            forall|s: String| call_requires(worker, (s,)),
            on_item matches Some(cb) ==> forall|s: String, ok: bool| call_requires(cb, (s, ok)),
            should_cancel matches Some(c) ==> call_requires(c, ()),
            forall|k: Seq<char>|
                run@.results.dom().contains(k) ==> exists|i: int|
                    0 <= i < orig.len() && orig[i]@ == k && call_ensures(
                        worker,
                        (orig[i],),
                        #[trigger] run@.results[k],
                    ),
        ensures
            run.wf(),
            run@.items == strings_view(orig),
            run@.batch_size == spec_chunk_size(batch_size),
            run@.next_action() == BatchAction::Finish,
            run@.cancelled ==> spec_may_cancel(should_cancel),
            forall|k: Seq<char>|
                run@.results.dom().contains(k) ==> exists|i: int|
                    0 <= i < orig.len() && orig[i]@ == k && call_ensures(
                        worker,
                        (orig[i],),
                        #[trigger] run@.results[k],
                    ),
        decreases
                2 * (run@.items.len() - run@.launched) + if run@.cancelled {
                    0int
                } else if run@.launched == run@.chunk_end {
                    1int
                } else {
                    0int
                },
    {
        match run.next_action() {
            BatchAction::Finish => {
                break ;
            },
            BatchAction::CheckCancel => {
                let cancel = match &should_cancel {
                    Some(c) => c(),
                    None => false,
                };
                run.on_cancel_checked(cancel);
                if cancel {
                    break ;
                }
            },
            BatchAction::Launch(index) => {
                let ghost before = run@;
                run.on_launched();
                let item = run.item(index).clone();
                let result = worker(item);
                let ghost given = result;
                let ok = run.on_completed(index, result);
                match &on_item {
                    Some(cb) => {
                        cb(run.item(index).clone(), ok);
                    },
                    None => {},
                }
                proof {
                    let key = strings_view(orig)[index as int];
                    assert forall|k: Seq<char>| run@.results.dom().contains(k) implies exists|i: int|

                        0 <= i < orig.len() && orig[i]@ == k && call_ensures(
                            worker,
                            (orig[i],),
                            #[trigger] run@.results[k],
                        ) by {
                        if k == key {
                            assert(orig[index as int]@ == k && call_ensures(
                                worker,
                                (orig[index as int],),
                                run@.results[k],
                            ));
                        } else {
                            assert(before.results.dom().contains(k));
                            let i = choose|i: int|
                                0 <= i < orig.len() && orig[i]@ == k && call_ensures(
                                    worker,
                                    (orig[i],),
                                    before.results[k],
                                );
                            assert(run@.results[k] == before.results[k]);
                        }
                    }
                }
            },
            BatchAction::Wait => {
                break ;
            },
        }
    }
    proof {
        let v = run@;
        if v.cancelled {
            lemma_results_cancelled(v);
            assert(v.results.dom() == strings_view(orig).take(v.chunk_start as int).to_set());
        } else {
            lemma_results_complete(v);
            assert(strings_view(orig).take(orig.len() as int) =~= strings_view(orig));
            assert(v.results.dom() == strings_view(orig).take(orig.len() as int).to_set());
        }
    }
    run.into_results()
}

} // verus!
