//! The download queue: links lined up and worked off one after another.
//!
//! The queue decides what runs next; the workers themselves run elsewhere and
//! report back.

use crate::text::{lowered, same, starts_with, to_lowercase, trim, trimmed};
use crate::types::{Outcome, QueueState};
use vstd::prelude::*;

verus! {

/// One queued download, waiting for its turn or already past it.
#[derive(Debug)]
pub struct QueueItem {
    pub url: String,
    pub state: QueueState,
}

/// The download queue.
#[derive(Debug)]
pub struct Queue {
    /// URLs lined up for download, oldest first.
    items: Vec<QueueItem>,
    /// True while the queue is being worked through; Stop clears it so the
    /// remaining entries stay put instead of starting on their own.
    running: bool,
    /// Index of the entry the running worker belongs to.
    current: Option<usize>,
    /// A worker is at work.
    busy: bool,
    /// Outcome the worker reported; `Failed` until it says otherwise, so a
    /// worker that dies without a word is not counted as a success.
    outcome: Outcome,
}

/// What the queue asks for.
#[derive(Debug)]
pub enum Step {
    /// Nothing is to be started.
    Idle,
    /// A worker for this URL.
    Download(String),
    /// The list is worked off; a real queue also says how many of its entries
    /// were done and how many failed.
    Finished(Option<(usize, usize)>),
}

/// Whether a run can begin.
#[derive(Debug)]
pub enum Prepared {
    /// A worker is at work already.
    Busy,
    /// Nothing can be started, for the reason that this text key names.
    Refused(&'static str),
    /// Something is waiting.
    Ready,
}

// ---------------- addresses ----------------

/// An address whose lowercase form is `lower` is one of the web.
pub open spec fn is_http(lower: Seq<char>) -> bool {
    "http://"@.is_prefix_of(lower) || "https://"@.is_prefix_of(lower)
}

/// Whether an address with this lowercase form is one of the web.
pub fn http_lower(lower: &str) -> (r: bool)
    ensures
        r == is_http(lower@),
{
    starts_with(lower, "http://") || starts_with(lower, "https://")
}

/// Whether an address is one of the web.
pub fn is_http_url(url: &str) -> (r: bool)
    ensures
        r == is_http(lowered(url@)),
{
    http_lower(to_lowercase(url).as_str())
}

// ---------------- what the list says ----------------

/// An entry from the `i`-th on is in a state.
pub open spec fn state_from(s: Seq<QueueItem>, state: QueueState, i: int) -> Option<int>
    decreases s.len() - i,
{
    if i < 0 || i >= s.len() {
        None
    } else if s[i].state == state {
        Some(i)
    } else {
        state_from(s, state, i + 1)
    }
}

/// The first waiting entry.
pub open spec fn next_up(s: Seq<QueueItem>) -> Option<int> {
    state_from(s, QueueState::Pending, 0)
}

/// How many entries are in a state.
pub open spec fn count_of(s: Seq<QueueItem>, state: QueueState) -> nat
    decreases s.len(),
{
    if s.len() == 0 {
        0
    } else {
        count_of(s.drop_last(), state) + if s.last().state == state {
            1nat
        } else {
            0nat
        }
    }
}

/// An address is waiting already.
pub open spec fn is_waiting(s: Seq<QueueItem>, url: Seq<char>) -> bool {
    exists|i: int|
        0 <= i < s.len() && (#[trigger] s[i]).url@ == url && s[i].state == QueueState::Pending
}

/// Why an address is not taken into the list. Only waiting entries block a
/// duplicate - queueing something again after it finished is a normal way to
/// retry it.
pub open spec fn refusal(s: Seq<QueueItem>, url: Seq<char>, lower: Seq<char>) -> Option<Seq<char>> {
    if url.len() == 0 {
        Some("toast.need_url"@)
    } else if !is_http(lower) {
        Some("toast.bad_url"@)
    } else if is_waiting(s, url) {
        Some("dl.queue_dupe"@)
    } else {
        None
    }
}

/// `t` is `s` with one entry in another state.
pub open spec fn is_marked(t: Seq<QueueItem>, s: Seq<QueueItem>, i: int, state: QueueState) -> bool {
    &&& t.len() == s.len()
    &&& 0 <= i < s.len()
    &&& t[i].url@ == s[i].url@
    &&& t[i].state == state
    &&& forall|j: int| 0 <= j < s.len() && j != i ==> t[j] == s[j]
}

/// The entries that stay when the list is cleared: the one that is running, and
/// the waiting ones too unless all are to go. Whatever is downloading right now
/// stays - the list is a plan, not a kill switch; Stop is.
pub open spec fn stays(state: QueueState, all: bool) -> bool {
    state == QueueState::Running || (!all && state == QueueState::Pending)
}

/// The entries of a list that stay when it is cleared.
pub open spec fn cleared(s: Seq<QueueItem>, all: bool) -> Seq<QueueItem>
    decreases s.len(),
{
    if s.len() == 0 {
        seq![]
    } else if stays(s.last().state, all) {
        cleared(s.drop_last(), all).push(s.last())
    } else {
        cleared(s.drop_last(), all)
    }
}

/// The state that an entry is left in by the outcome of its run. Stop is not a
/// failure - the entry goes back to waiting so a second Start picks up where
/// this one left off.
pub open spec fn state_after(o: Outcome) -> QueueState {
    match o {
        Outcome::Success(_) => QueueState::Done,
        Outcome::Skipped => QueueState::Skipped,
        Outcome::Cancelled => QueueState::Pending,
        Outcome::Failed => QueueState::Failed,
    }
}

/// The state that an entry is left in by the outcome of its run.
pub fn after_outcome(o: &Outcome) -> (r: QueueState)
    ensures
        r == state_after(*o),
{
    match o {
        Outcome::Success(_) => QueueState::Done,
        Outcome::Skipped => QueueState::Skipped,
        Outcome::Cancelled => QueueState::Pending,
        Outcome::Failed => QueueState::Failed,
    }
}

/// No more entries are in a state than there are.
pub proof fn lemma_count_of(s: Seq<QueueItem>, state: QueueState)
    ensures
        count_of(s, state) <= s.len(),
    decreases s.len(),
{
    if s.len() > 0 {
        lemma_count_of(s.drop_last(), state);
    }
}

proof fn lemma_state_from(s: Seq<QueueItem>, state: QueueState, i: int)
    requires
        0 <= i,
    ensures
        match state_from(s, state, i) {
            Some(k) => i <= k < s.len() && s[k].state == state && forall|j: int|
                i <= j < k ==> (#[trigger] s[j]).state != state,
            None => forall|j: int| i <= j < s.len() ==> (#[trigger] s[j]).state != state,
        },
    decreases s.len() - i,
{
    if i < s.len() && s[i].state != state {
        lemma_state_from(s, state, i + 1);
    }
}

/// The first entry in a state is where nothing before it is in that state.
proof fn lemma_first(s: Seq<QueueItem>, state: QueueState, i: int, k: int)
    requires
        0 <= i <= k < s.len(),
        s[k].state == state,
        forall|j: int| i <= j < k ==> (#[trigger] s[j]).state != state,
    ensures
        state_from(s, state, i) == Some(k),
    decreases k - i,
{
    if i < k {
        lemma_first(s, state, i + 1, k);
    }
}

fn find_state(v: &Vec<QueueItem>, state: QueueState) -> (r: Option<usize>)
    ensures
        match r {
            Some(i) => state_from(v@, state, 0) == Some(i as int),
            None => state_from(v@, state, 0) is None,
        },
{
    let n = v.len();
    let mut i: usize = 0;
    while i < n
        invariant
            n == v@.len(),
            i <= n,
            state_from(v@, state, 0) == state_from(v@, state, i as int),
        decreases n - i,
    {
        if v[i].state == state {
            return Some(i);
        }
        i += 1;
    }
    None
}

fn count_state(v: &Vec<QueueItem>, state: QueueState) -> (r: usize)
    ensures
        r == count_of(v@, state),
{
    let mut n: usize = 0;
    assert(v@.take(0) =~= Seq::<QueueItem>::empty());
    for i in 0..v.len()
        invariant
            n == count_of(v@.take(i as int), state),
            n <= i,
    {
        assert(v@.take(i + 1).drop_last() =~= v@.take(i as int));
        if v[i].state == state {
            n += 1;
        }
    }
    assert(v@.take(v@.len() as int) =~= v@);
    n
}

fn waiting(v: &Vec<QueueItem>, url: &str) -> (r: bool)
    ensures
        r == is_waiting(v@, url@),
{
    for i in 0..v.len()
        invariant
            forall|j: int|
                0 <= j < i ==> !((#[trigger] v@[j]).url@ == url@ && v@[j].state
                    == QueueState::Pending),
    {
        if v[i].state == QueueState::Pending && same(v[i].url.as_str(), url) {
            return true;
        }
    }
    false
}

fn keep(v: &mut Vec<QueueItem>, all: bool)
    ensures
        final(v)@ == cleared(old(v)@, all),
{
    let ghost before = v@;
    let n = v.len();
    let mut seen: usize = 0;
    let mut i: usize = 0;
    assert(before.take(0) =~= Seq::<QueueItem>::empty());
    assert(v@ =~= cleared(before.take(0), all) + before.skip(0));
    while seen < n
        invariant
            n == before.len(),
            seen <= n,
            i <= seen,
            i == cleared(before.take(seen as int), all).len(),
            v@ == cleared(before.take(seen as int), all) + before.skip(seen as int),
        decreases n - seen,
    {
        let ghost kept = cleared(before.take(seen as int), all);
        assert(before.take(seen + 1).drop_last() =~= before.take(seen as int));
        assert(before.take(seen + 1).last() == before[seen as int]);
        assert(v@[i as int] == before[seen as int]);
        let state = v[i].state;
        if state == QueueState::Running || (!all && state == QueueState::Pending) {
            assert(v@ =~= kept.push(before[seen as int]) + before.skip(seen + 1));
            i += 1;
        } else {
            let _ = v.remove(i);
            assert(v@ =~= kept + before.skip(seen + 1));
        }
        seen += 1;
    }
    assert(before.take(n as int) =~= before);
    assert(v@ =~= cleared(before, all));
}

// ---------------- the queue ----------------

/// The contents of a queue.
pub struct State {
    pub items: Seq<QueueItem>,
    pub running: bool,
    pub current: Option<int>,
    pub busy: bool,
    pub outcome: Outcome,
}

/// At most one entry is running, it is the one the worker belongs to, and
/// nothing before it is waiting.
pub open spec fn is_valid(q: State) -> bool {
    &&& match q.current {
        Some(c) => {
            &&& 0 <= c < q.items.len()
            &&& q.items[c].state == QueueState::Running
            &&& q.busy
            &&& forall|j: int| 0 <= j < c ==> (#[trigger] q.items[j]).state != QueueState::Pending
        },
        None => true,
    }
    &&& forall|j: int|
        0 <= j < q.items.len() && (#[trigger] q.items[j]).state == QueueState::Running
            ==> q.current == Some(j)
}

/// What a step asks for, as text and numbers.
pub enum Asked {
    Nothing,
    Url(Seq<char>),
    End(Option<(nat, nat)>),
}

/// What a step asks for, as text and numbers.
pub open spec fn asked(s: Step) -> Asked {
    match s {
        Step::Idle => Asked::Nothing,
        Step::Download(u) => Asked::Url(u@),
        Step::Finished(None) => Asked::End(None),
        Step::Finished(Some((d, f))) => Asked::End(Some((d as nat, f as nat))),
    }
}

/// How many entries were done and how many failed, where the list held more
/// than one: a single download already reports itself.
pub open spec fn summary(s: Seq<QueueItem>) -> Option<(nat, nat)> {
    if s.len() > 1 {
        Some((count_of(s, QueueState::Done), count_of(s, QueueState::Failed)))
    } else {
        None
    }
}

/// `n` is what becomes of the queue `q` when it moves on, and `a` what it asks
/// for: the first waiting entry, or the end of the run.
pub open spec fn moves_on(n: State, q: State, a: Asked) -> bool {
    if q.busy || !q.running {
        n == q && a == Asked::Nothing
    } else {
        match next_up(q.items) {
            Some(i) => {
                &&& is_marked(n.items, q.items, i, QueueState::Running)
                &&& n.current == Some(i)
                &&& n.running
                &&& n.busy
                &&& n.outcome == Outcome::Failed
                &&& a == Asked::Url(q.items[i].url@)
            },
            None => {
                &&& n == (State { running: false, ..q })
                &&& a == Asked::End(summary(q.items))
            },
        }
    }
}

/// `n` is the queue `q` with one more waiting entry at its end.
pub open spec fn is_enqueued(n: State, q: State, url: Seq<char>) -> bool {
    &&& n.items.len() == q.items.len() + 1
    &&& n.items.drop_last() == q.items
    &&& n.items.last().url@ == url
    &&& n.items.last().state == QueueState::Pending
    &&& n == (State { items: n.items, ..q })
}

/// `n` is the queue `q` made ready for a start, with what was typed, and `r`
/// whether it can begin.
pub open spec fn is_prepared(n: State, q: State, typed: Seq<char>, r: Prepared) -> bool {
    let url = trimmed(typed);
    if q.busy {
        r is Busy && n == q
    } else if url.len() > 0 {
        match refusal(q.items, url, lowered(url)) {
            Some(key) => r is Refused && r->Refused_0@ == key && n == q,
            None => r is Ready && is_enqueued(n, q, url),
        }
    } else if next_up(q.items) is Some {
        r is Ready && n == q
    } else {
        r is Refused && r->Refused_0@ == "toast.need_url"@ && n == q
    }
}

impl Queue {
    /// What the queue holds.
    pub closed spec fn view(&self) -> State {
        State {
            items: self.items@,
            running: self.running,
            current: match self.current {
                Some(c) => Some(c as int),
                None => None,
            },
            busy: self.busy,
            outcome: self.outcome,
        }
    }

    /// At most one entry is running, and it is the one the worker belongs to.
    pub open spec fn wf(&self) -> bool {
        is_valid(self.view())
    }

    /// An empty queue.
    pub fn new() -> (r: Queue)
        ensures
            r.wf(),
            r.view() == (State {
                items: seq![],
                running: false,
                current: None,
                busy: false,
                outcome: Outcome::Failed,
            }),
    {
        let r = Queue {
            items: Vec::new(),
            running: false,
            current: None,
            busy: false,
            outcome: Outcome::Failed,
        };
        assert(r.view().items =~= seq![]);
        r
    }

    /// How many entries the list has.
    pub fn len(&self) -> (r: usize)
        ensures
            r == self.view().items.len(),
    {
        self.items.len()
    }

    /// Whether the list has no entry.
    pub fn is_empty(&self) -> (r: bool)
        ensures
            r == (self.view().items.len() == 0),
    {
        self.items.len() == 0
    }

    /// Whether a worker is at work.
    pub fn is_busy(&self) -> (r: bool)
        ensures
            r == self.view().busy,
    {
        self.busy
    }

    /// An entry of the list.
    pub fn item(&self, i: usize) -> (r: &QueueItem)
        requires
            i < self.view().items.len(),
        ensures
            *r == self.view().items[i as int],
    {
        &self.items[i]
    }

    /// How many entries are in a state.
    pub fn count(&self, state: QueueState) -> (r: usize)
        ensures
            r == count_of(self.view().items, state),
    {
        count_state(&self.items, state)
    }

    /// Takes an address into the list; `lower` is its lowercase form.
    pub fn enqueue_known(&mut self, url: &str, lower: &str) -> (r: Result<(), &'static str>)
        requires
            old(self).wf(),
        ensures
            final(self).wf(),
            match refusal(old(self).view().items, url@, lower@) {
                Some(key) => r is Err && r->Err_0@ == key && final(self).view() == old(self).view(),
                None => r is Ok && is_enqueued(final(self).view(), old(self).view(), url@),
            },
    {
        if url.is_empty() {
            return Err("toast.need_url");
        }
        if !http_lower(lower) {
            return Err("toast.bad_url");
        }
        if waiting(&self.items, url) {
            return Err("dl.queue_dupe");
        }
        let ghost before = self.items@;
        self.items.push(QueueItem { url: url.to_owned(), state: QueueState::Pending });
        assert(self.items@.drop_last() =~= before);
        assert forall|j: int|
            0 <= j < self.items@.len() && (#[trigger] self.items@[j]).state
                == QueueState::Running implies self.view().current == Some(j) by {
            assert(j < before.len());
            assert(before[j] == self.items@[j]);
            assert(old(self).view().items[j].state == QueueState::Running);
        }
        assert forall|j: int|
            0 <= j < before.len() implies (#[trigger] self.items@[j]) == before[j] by {}
        Ok(())
    }

    /// Takes what was typed into the list; the error names why it was not
    /// usable.
    pub fn enqueue_typed_url(&mut self, typed: &str) -> (r: Result<(), &'static str>)
        requires
            old(self).wf(),
        ensures
            final(self).wf(),
            match refusal(old(self).view().items, trimmed(typed@), lowered(trimmed(typed@))) {
                Some(key) => r is Err && r->Err_0@ == key && final(self).view() == old(self).view(),
                None => r is Ok && is_enqueued(final(self).view(), old(self).view(), trimmed(typed@)),
            },
    {
        let url = trim(typed);
        let lower = to_lowercase(url.as_str());
        self.enqueue_known(url.as_str(), lower.as_str())
    }

    /// Gets ready for a start: queues whatever is typed. Something has to be
    /// waiting then.
    pub fn prepare_start(&mut self, typed: &str) -> (r: Prepared)
        requires
            old(self).wf(),
        ensures
            final(self).wf(),
            is_prepared(final(self).view(), old(self).view(), typed@, r),
    {
        if self.busy {
            return Prepared::Busy;
        }
        if !trim(typed).as_str().is_empty() {
            return match self.enqueue_typed_url(typed) {
                Ok(_) => Prepared::Ready,
                Err(key) => Prepared::Refused(key),
            };
        }
        match find_state(&self.items, QueueState::Pending) {
            Some(_) => Prepared::Ready,
            None => Prepared::Refused("toast.need_url"),
        }
    }

    /// Start: works the list off top to bottom.
    pub fn start_downloads(&mut self) -> (r: Step)
        requires
            old(self).wf(),
        ensures
            final(self).wf(),
            old(self).view().busy ==> final(self).view() == old(self).view() && asked(r)
                == Asked::Nothing,
            !old(self).view().busy ==> moves_on(
                final(self).view(),
                State { running: true, ..old(self).view() },
                asked(r),
            ),
    {
        if self.busy {
            return Step::Idle;
        }
        self.running = true;
        self.advance_queue()
    }

    /// Starts the next waiting entry, or closes the run out.
    pub fn advance_queue(&mut self) -> (r: Step)
        requires
            old(self).wf(),
        ensures
            final(self).wf(),
            moves_on(final(self).view(), old(self).view(), asked(r)),
    {
        if self.busy || !self.running {
            return Step::Idle;
        }
        proof {
            lemma_state_from(self.items@, QueueState::Pending, 0);
        }
        match find_state(&self.items, QueueState::Pending) {
            Some(index) => {
                let ghost before = self.items@;
                assert(self.current is None);
                let url = self.items[index].url.clone();
                let kept = self.items[index].url.clone();
                self.items.set(index, QueueItem { url: kept, state: QueueState::Running });
                self.current = Some(index);
                self.busy = true;
                self.outcome = Outcome::Failed;
                proof {
                    let now = self.items@;
                    assert(is_marked(now, before, index as int, QueueState::Running));
                    assert forall|j: int|
                        0 <= j < now.len() && (#[trigger] now[j]).state
                            == QueueState::Running implies self.view().current == Some(j) by {
                        if j != index {
                            assert(now[j] == before[j]);
                            assert(old(self).view().items[j].state == QueueState::Running);
                        }
                    }
                    assert forall|j: int|
                        0 <= j < index implies (#[trigger] now[j]).state != QueueState::Pending by {
                        assert(now[j] == before[j]);
                    }
                }
                Step::Download(url)
            },
            None => {
                self.running = false;
                if self.items.len() > 1 {
                    let done = count_state(&self.items, QueueState::Done);
                    let failed = count_state(&self.items, QueueState::Failed);
                    Step::Finished(Some((done, failed)))
                } else {
                    Step::Finished(None)
                }
            },
        }
    }

    /// Takes down that a worker is at work.
    pub fn set_busy(&mut self)
        requires
            old(self).wf(),
        ensures
            final(self).wf(),
            final(self).view() == (State { busy: true, ..old(self).view() }),
    {
        self.busy = true;
    }

    /// Takes down what the worker reported of its run.
    pub fn report(&mut self, outcome: Outcome)
        requires
            old(self).wf(),
        ensures
            final(self).wf(),
            final(self).view() == (State { outcome, ..old(self).view() }),
    {
        self.outcome = outcome;
    }

    /// Files the finished run away and lets the queue move on. Gives the outcome
    /// of the run, where one was on, and what comes next.
    pub fn download_ended(&mut self) -> (r: (Option<Outcome>, Step))
        requires
            old(self).wf(),
        ensures
            final(self).wf(),
            is_ended(final(self).view(), old(self).view(), r.0, asked(r.1)),
    {
        self.busy = false;
        let index = match self.current {
            Some(c) => c,
            None => return (None, Step::Idle),
        };
        let mut outcome = Outcome::Failed;
        std::mem::swap(&mut self.outcome, &mut outcome);
        self.current = None;
        let state = after_outcome(&outcome);
        let ghost before = self.items@;
        let kept = self.items[index].url.clone();
        self.items.set(index, QueueItem { url: kept, state });
        proof {
            let now = self.items@;
            assert(is_marked(now, before, index as int, state));
            assert forall|j: int|
                0 <= j < now.len() implies (#[trigger] now[j]).state != QueueState::Running by {
                if j != index {
                    assert(now[j] == before[j]);
                    if before[j].state == QueueState::Running {
                        assert(old(self).view().items[j].state == QueueState::Running);
                    }
                }
            }
        }
        if let Outcome::Cancelled = outcome {
            self.running = false;
            assert(is_ended(self.view(), old(self).view(), Some(outcome), Asked::Nothing));
            return (Some(outcome), Step::Idle);
        }
        let ghost mid = self.view();
        assert(files_away(mid, old(self).view(), outcome));
        let step = self.advance_queue();
        (Some(outcome), step)
    }

    /// Stop: the whole list stops, not just the entry in flight - "Stop" on a
    /// queue that immediately started the next URL would be no stop at all.
    pub fn stop_download(&mut self)
        requires
            old(self).wf(),
        ensures
            final(self).wf(),
            final(self).view() == (State { running: false, ..old(self).view() }),
    {
        self.running = false;
    }

    /// Takes an entry out of the list. The running one stays: it is what the
    /// worker is holding, and it keeps its identity even if the list shrinks
    /// above it.
    pub fn remove(&mut self, i: usize)
        requires
            old(self).wf(),
            i < old(self).view().items.len(),
            old(self).view().items[i as int].state != QueueState::Running,
        ensures
            final(self).wf(),
            final(self).view() == (State {
                items: old(self).view().items.remove(i as int),
                current: match old(self).view().current {
                    Some(c) => Some(
                        if i < c {
                            c - 1
                        } else {
                            c
                        },
                    ),
                    None => None,
                },
                ..old(self).view()
            }),
    {
        let ghost before = self.items@;
        let _ = self.items.remove(i);
        if let Some(c) = self.current {
            if i < c {
                self.current = Some(c - 1);
            }
        }
        proof {
            let now = self.items@;
            assert forall|j: int| 0 <= j < now.len() implies (#[trigger] now[j]) == before[if j < i {
                j
            } else {
                j + 1
            }] by {}
            assert forall|j: int|
                0 <= j < now.len() && (#[trigger] now[j]).state
                    == QueueState::Running implies self.view().current == Some(j) by {
                let k = if j < i {
                    j
                } else {
                    j + 1
                };
                assert(now[j] == before[k]);
                assert(old(self).view().items[k].state == QueueState::Running);
            }
            if let Some(c) = self.view().current {
                let k = if c < i {
                    c
                } else {
                    c + 1
                };
                assert(now[c] == before[k]);
                assert forall|j: int|
                    0 <= j < c implies (#[trigger] now[j]).state != QueueState::Pending by {
                    let m = if j < i {
                        j
                    } else {
                        j + 1
                    };
                    assert(now[j] == before[m]);
                    assert(old(self).view().items[m].state != QueueState::Pending);
                }
            }
        }
    }

    /// Takes the entries out that are done with.
    pub fn clear_done(&mut self)
        requires
            old(self).wf(),
        ensures
            final(self).wf(),
            final(self).view() == (State {
                items: cleared(old(self).view().items, false),
                current: state_from(
                    cleared(old(self).view().items, false),
                    QueueState::Running,
                    0,
                ),
                ..old(self).view()
            }),
    {
        keep(&mut self.items, false);
        self.current = find_state(&self.items, QueueState::Running);
        proof {
            lemma_cleared_valid(old(self).view(), false);
        }
    }

    /// Takes all entries out but the running one; nothing starts on its own
    /// afterwards.
    pub fn clear_all(&mut self)
        requires
            old(self).wf(),
        ensures
            final(self).wf(),
            final(self).view() == (State {
                items: cleared(old(self).view().items, true),
                running: false,
                current: state_from(
                    cleared(old(self).view().items, true),
                    QueueState::Running,
                    0,
                ),
                ..old(self).view()
            }),
    {
        keep(&mut self.items, true);
        self.running = false;
        self.current = find_state(&self.items, QueueState::Running);
        proof {
            lemma_cleared_valid(old(self).view(), true);
        }
    }
}

/// `n` is the queue `q` after the run that was on ended with `o`.
pub open spec fn files_away(n: State, q: State, o: Outcome) -> bool {
    &&& q.current is Some
    &&& q.outcome == o
    &&& is_marked(n.items, q.items, q.current->0, state_after(o))
    &&& n.current is None
    &&& !n.busy
    &&& n.outcome == Outcome::Failed
    &&& n.running == (q.running && !(o is Cancelled))
}

/// `n` is the queue `q` after its worker ended, with the outcome `o`, and `a`
/// what it asks for.
pub open spec fn is_ended(n: State, q: State, o: Option<Outcome>, a: Asked) -> bool {
    match q.current {
        None => n == (State { busy: false, ..q }) && o is None && a == Asked::Nothing,
        Some(_) => {
            &&& o == Some(q.outcome)
            &&& if q.outcome is Cancelled {
                files_away(n, q, q.outcome) && a == Asked::Nothing
            } else {
                exists|mid: State| #[trigger]
                    files_away(mid, q, q.outcome) && moves_on(n, mid, a)
            }
        },
    }
}

proof fn lemma_cleared(s: Seq<QueueItem>, all: bool)
    ensures
        forall|i: int|
            0 <= i < cleared(s, all).len() ==> s.contains(#[trigger] cleared(s, all)[i]) && stays(
                cleared(s, all)[i].state,
                all,
            ),
        forall|i: int|
            0 <= i < s.len() && stays((#[trigger] s[i]).state, all) ==> cleared(s, all).contains(
                s[i],
            ),
    decreases s.len(),
{
    if s.len() > 0 {
        let d = s.drop_last();
        let o = cleared(d, all);
        lemma_cleared(d, all);
        let c = cleared(s, all);
        assert forall|i: int| 0 <= i < c.len() implies s.contains(#[trigger] c[i]) && stays(
            c[i].state,
            all,
        ) by {
            if i < o.len() {
                assert(c[i] == o[i]);
                let k = choose|k: int| 0 <= k < d.len() && d[k] == o[i];
                assert(s[k] == c[i]);
            } else {
                assert(s[s.len() - 1] == c[i]);
            }
        }
        assert forall|i: int| 0 <= i < s.len() && stays((#[trigger] s[i]).state, all) implies c.contains(
            s[i],
        ) by {
            if i < d.len() {
                assert(d[i] == s[i]);
                let k = choose|k: int| 0 <= k < o.len() && o[k] == d[i];
                assert(c[k] == s[i]);
            } else {
                assert(c[c.len() - 1] == s[i]);
            }
        }
    }
}

/// No entry is running.
spec fn none_running(s: Seq<QueueItem>) -> bool {
    forall|j: int| 0 <= j < s.len() ==> (#[trigger] s[j]).state != QueueState::Running
}

proof fn lemma_none_running(s: Seq<QueueItem>, all: bool)
    requires
        none_running(s),
    ensures
        none_running(cleared(s, all)),
{
    lemma_cleared(s, all);
    let c = cleared(s, all);
    assert forall|j: int| 0 <= j < c.len() implies (#[trigger] c[j]).state != QueueState::Running by {
        assert(s.contains(c[j]));
        let k = choose|k: int| 0 <= k < s.len() && s[k] == c[j];
    }
}

proof fn lemma_cleared_take(s: Seq<QueueItem>, all: bool, k: int)
    requires
        0 <= k <= s.len(),
    ensures
        cleared(s, all) == cleared(s.take(k), all) + cleared(s.skip(k), all),
    decreases s.len(),
{
    if k == s.len() {
        assert(s.take(k) =~= s);
        assert(s.skip(k) =~= Seq::<QueueItem>::empty());
        assert(cleared(s, all) =~= cleared(s.take(k), all) + cleared(s.skip(k), all));
    } else {
        let d = s.drop_last();
        lemma_cleared_take(d, all, k);
        assert(d.take(k) =~= s.take(k));
        assert(s.skip(k).drop_last() =~= d.skip(k));
        assert(s.skip(k).last() == s.last());
        if stays(s.last().state, all) {
            assert((cleared(s.take(k), all) + cleared(d.skip(k), all)).push(s.last()) =~= cleared(
                s.take(k),
                all,
            ) + cleared(d.skip(k), all).push(s.last()));
        }
    }
}

/// Nothing is left before the running entry, and it is still the only one.
proof fn lemma_cleared_valid(q: State, all: bool)
    requires
        is_valid(q),
    ensures
        ({
            let c = cleared(q.items, all);
            let cur = state_from(c, QueueState::Running, 0);
            &&& match q.current {
                Some(k) => cur == Some(0int) && c.len() > 0 && c[0] == q.items[k],
                None => cur is None,
            }
            &&& forall|j: int|
                0 <= j < c.len() && (#[trigger] c[j]).state == QueueState::Running ==> cur == Some(j)
        }),
{
    let c = cleared(q.items, all);
    lemma_state_from(c, QueueState::Running, 0);
    match q.current {
        None => {
            assert(none_running(q.items));
            lemma_none_running(q.items, all);
        },
        Some(k) => {
            let a = q.items.take(k);
            let b = q.items.skip(k);
            let r = q.items.skip(k + 1);
            lemma_cleared_take(q.items, all, k);
            lemma_cleared_take(b, all, 1);
            assert(b.skip(1) =~= r);
            assert(b.take(1).drop_last() =~= Seq::<QueueItem>::empty());
            assert(b.take(1).last() == q.items[k]);
            assert(cleared(b.take(1).drop_last(), all) =~= Seq::<QueueItem>::empty());
            assert(cleared(b.take(1), all) =~= seq![q.items[k]]);
            assert forall|j: int| 0 <= j < a.len() implies !stays((#[trigger] a[j]).state, all) by {
                assert(a[j] == q.items[j]);
            }
            lemma_cleared(a, all);
            if cleared(a, all).len() > 0 {
                let x = cleared(a, all)[0];
                let m = choose|m: int| 0 <= m < a.len() && a[m] == x;
                assert(!stays(a[m].state, all));
            }
            assert forall|j: int| 0 <= j < r.len() implies (#[trigger] r[j]).state
                != QueueState::Running by {
                assert(r[j] == q.items[j + k + 1]);
            }
            lemma_none_running(r, all);
            assert(c =~= seq![q.items[k]] + cleared(r, all));
            lemma_first(c, QueueState::Running, 0, 0);
            assert forall|j: int|
                0 <= j < c.len() && (#[trigger] c[j]).state == QueueState::Running implies j == 0 by {
                if j > 0 {
                    assert(c[j] == cleared(r, all)[j - 1]);
                }
            }
        },
    }
}

// ---------------- laws ----------------

/// At most one entry is running at any time.
pub proof fn one_download_at_a_time(q: State, i: int, j: int)
    requires
        is_valid(q),
        0 <= i < q.items.len(),
        0 <= j < q.items.len(),
        q.items[i].state == QueueState::Running,
        q.items[j].state == QueueState::Running,
    ensures
        i == j,
{
}

/// The list is worked off in order: what is started was waiting, and nothing
/// above it is.
pub proof fn the_oldest_waiting_entry_is_next(n: State, q: State, a: Asked)
    requires
        moves_on(n, q, a),
        a is Url,
    ensures
        n.current is Some,
        q.items[n.current->0].state == QueueState::Pending,
        n.items[n.current->0].state == QueueState::Running,
        a == Asked::Url(n.items[n.current->0].url@),
        forall|j: int|
            0 <= j < n.current->0 ==> (#[trigger] n.items[j]).state != QueueState::Pending,
{
    lemma_state_from(q.items, QueueState::Pending, 0);
    let i = n.current->0;
    assert forall|j: int| 0 <= j < i implies (#[trigger] n.items[j]).state != QueueState::Pending by {
        assert(n.items[j] == q.items[j]);
    }
}

/// A stopped queue starts nothing, whatever its worker reports at its end.
pub proof fn stop_stops_the_whole_list(n: State, q: State, o: Option<Outcome>, a: Asked)
    requires
        is_ended(n, q, o, a),
        !q.running,
    ensures
        a == Asked::Nothing,
        !n.running,
        n.current is None,
{
}

/// The entry that Stop interrupted goes back to waiting, and the next start
/// picks it up again, also when more was queued in the meantime.
pub proof fn a_second_start_picks_up_where_the_first_left_off(
    q: State,
    stopped: State,
    more: Seq<QueueItem>,
    n: State,
    a: Asked,
)
    requires
        is_valid(q),
        q.current is Some,
        q.outcome is Cancelled,
        is_ended(stopped, q, Some(q.outcome), Asked::Nothing),
        moves_on(n, State { items: stopped.items + more, running: true, ..stopped }, a),
    ensures
        stopped.items[q.current->0].state == QueueState::Pending,
        a == Asked::Url(q.items[q.current->0].url@),
        n.current == q.current,
{
    let c = q.current->0;
    let s = stopped.items + more;
    assert forall|j: int| 0 <= j < c implies (#[trigger] s[j]).state != QueueState::Pending by {
        assert(s[j] == stopped.items[j]);
        assert(stopped.items[j] == q.items[j]);
    }
    assert(s[c] == stopped.items[c]);
    lemma_first(s, QueueState::Pending, 0, c);
}

/// Clearing the list or taking an entry out never touches the running one: the
/// worker still belongs to the entry with its URL.
pub proof fn the_running_entry_stays(q: State, i: int, all: bool)
    requires
        is_valid(q),
        q.current is Some,
    ensures
        ({
            let c = cleared(q.items, all);
            let k = state_from(c, QueueState::Running, 0);
            k is Some && 0 <= k->0 < c.len() && c[k->0] == q.items[q.current->0]
        }),
        0 <= i < q.items.len() && q.items[i].state != QueueState::Running ==> ({
            let c = q.current->0;
            q.items.remove(i)[if i < c {
                c - 1
            } else {
                c
            }] == q.items[c]
        }),
{
    lemma_cleared_valid(q, all);
}

/// When the queue is ready to start, starting it starts a download.
pub proof fn a_ready_queue_starts_a_download(
    q: State,
    typed: Seq<char>,
    ready: State,
    r: Prepared,
    n: State,
    a: Asked,
)
    requires
        is_prepared(ready, q, typed, r),
        r is Ready,
        moves_on(n, State { running: true, ..ready }, a),
    ensures
        a is Url,
        n.busy,
{
    lemma_state_from(ready.items, QueueState::Pending, 0);
    if trimmed(typed).len() > 0 {
        assert(ready.items[ready.items.len() - 1].state == QueueState::Pending);
    }
}

/// A worker that ends without a word is not counted as a success.
pub proof fn a_silent_end_is_a_failure(n: State, q: State, a: Asked)
    requires
        moves_on(n, q, a),
        a is Url,
    ensures
        state_after(n.outcome) == QueueState::Failed,
{
}

proof fn lemma_no_state(s: Seq<QueueItem>, state: QueueState, i: int)
    requires
        0 <= i,
        forall|j: int| i <= j < s.len() ==> (#[trigger] s[j]).state != state,
    ensures
        state_from(s, state, i) is None,
    decreases s.len() - i,
{
    if i < s.len() {
        lemma_no_state(s, state, i + 1);
    }
}

proof fn lemma_some_state(s: Seq<QueueItem>, state: QueueState, i: int, k: int)
    requires
        0 <= i <= k < s.len(),
        s[k].state == state,
    ensures
        state_from(s, state, i) is Some,
    decreases k - i,
{
    if i < k && s[i].state != state {
        lemma_some_state(s, state, i + 1, k);
    }
}

/// An address is taken in exactly when it is one of the web and not waiting
/// already; one that was worked off may come again.
pub proof fn only_new_web_addresses_are_taken(s: Seq<QueueItem>, url: Seq<char>, lower: Seq<char>)
    ensures
        ({
            let web = "http://"@.is_prefix_of(lower) || "https://"@.is_prefix_of(lower);
            let waits = exists|i: int|
                0 <= i < s.len() && (#[trigger] s[i]).url@ == url && s[i].state is Pending;
            &&& url.len() == 0 ==> refusal(s, url, lower) == Some("toast.need_url"@)
            &&& url.len() > 0 && !web ==> refusal(s, url, lower) == Some("toast.bad_url"@)
            &&& url.len() > 0 && web && waits ==> refusal(s, url, lower) == Some("dl.queue_dupe"@)
            &&& url.len() > 0 && web && !waits ==> refusal(s, url, lower) is None
        }),
{
}

/// A new entry waits behind the others, which stay as they are.
pub proof fn a_new_entry_waits_behind_the_others(n: State, q: State, url: Seq<char>)
    requires
        is_enqueued(n, q, url),
    ensures
        n.items.len() == q.items.len() + 1,
        forall|i: int| 0 <= i < q.items.len() ==> #[trigger] n.items[i] == q.items[i],
        n.items[q.items.len() as int].url@ == url,
        n.items[q.items.len() as int].state is Pending,
        n.busy == q.busy && n.running == q.running && n.current == q.current,
{
    assert forall|i: int| 0 <= i < q.items.len() implies #[trigger] n.items[i] == q.items[i] by {
        assert(n.items.drop_last()[i] == q.items[i]);
    }
}

/// A finished download is filed under its outcome: what was written is done,
/// what was left alone is skipped, what was stopped waits again, and all else
/// has failed. No other entry changes.
pub proof fn an_entry_is_filed_by_its_outcome(n: State, q: State, o: Outcome)
    requires
        files_away(n, q, o),
    ensures
        ({
            let c = q.current->0;
            &&& o is Success ==> n.items[c].state is Done
            &&& o is Skipped ==> n.items[c].state is Skipped
            &&& o is Cancelled ==> n.items[c].state is Pending
            &&& o is Failed ==> n.items[c].state is Failed
            &&& n.items[c].url@ == q.items[c].url@
            &&& n.items.len() == q.items.len()
            &&& forall|j: int| 0 <= j < q.items.len() && j != c ==> #[trigger] n.items[j] == q.items[j]
            &&& n.current is None && !n.busy
        }),
        n.running <==> q.running && !(o is Cancelled),
{
}

/// To clear the list leaves, in their order, what is being downloaded and, but
/// for the whole list, what is still to come.
pub proof fn clearing_keeps_what_is_to_come(s: Seq<QueueItem>)
    ensures
        cleared(s, false) == s.filter(
            |e: QueueItem| e.state is Running || e.state is Pending,
        ),
        cleared(s, true) == s.filter(|e: QueueItem| e.state is Running),
    decreases s.len(),
{
    reveal(Seq::filter);
    if s.len() > 0 {
        clearing_keeps_what_is_to_come(s.drop_last());
    }
}

/// The entries of one state are counted, and no other.
pub proof fn entries_are_counted_by_their_state(s: Seq<QueueItem>, state: QueueState)
    ensures
        count_of(s, state) == s.filter(|e: QueueItem| e.state == state).len(),
    decreases s.len(),
{
    reveal(Seq::filter);
    if s.len() > 0 {
        entries_are_counted_by_their_state(s.drop_last(), state);
    }
}

/// A queue that runs and has nothing left to start comes to its end, and a list
/// of more than one entry ends with the numbers of those that are done and
/// those that failed.
pub proof fn a_list_ends_with_its_numbers(n: State, q: State, a: Asked)
    requires
        moves_on(n, q, a),
        q.running && !q.busy,
        forall|i: int| 0 <= i < q.items.len() ==> !((#[trigger] q.items[i]).state is Pending),
    ensures
        n.items == q.items && !n.running && !n.busy,
        q.items.len() <= 1 ==> a == Asked::End(None),
        q.items.len() > 1 ==> a == Asked::End(
            Some(
                (
                    q.items.filter(|e: QueueItem| e.state == QueueState::Done).len(),
                    q.items.filter(|e: QueueItem| e.state == QueueState::Failed).len(),
                ),
            ),
        ),
{
    lemma_no_state(q.items, QueueState::Pending, 0);
    entries_are_counted_by_their_state(q.items, QueueState::Done);
    entries_are_counted_by_their_state(q.items, QueueState::Failed);
}

/// A queue that runs starts a download whenever an entry waits; one that stands
/// still or is at work starts nothing.
pub proof fn a_waiting_entry_is_started(n: State, q: State, a: Asked, i: int)
    requires
        moves_on(n, q, a),
        0 <= i < q.items.len(),
        q.items[i].state is Pending,
    ensures
        q.running && !q.busy ==> a is Url && n.busy && n.current is Some && n.current->0 <= i,
        !q.running || q.busy ==> a == Asked::Nothing && n == q,
{
    lemma_some_state(q.items, QueueState::Pending, 0, i);
    if q.running && !q.busy {
        the_oldest_waiting_entry_is_next(n, q, a);
        let k = n.current->0;
        if k > i {
            assert(n.items[i] == q.items[i]);
        }
    }
}

/// To start takes in the address that was typed; with none, it takes what
/// waits, and with nothing waiting it asks for an address.
pub proof fn a_start_takes_in_what_was_typed(n: State, q: State, typed: Seq<char>, r: Prepared)
    requires
        is_prepared(n, q, typed, r),
    ensures
        q.busy ==> r is Busy && n == q,
        !q.busy && trimmed(typed).len() > 0 && refusal(
            q.items,
            trimmed(typed),
            lowered(trimmed(typed)),
        ) is None ==> r is Ready && is_enqueued(n, q, trimmed(typed)),
        !q.busy && trimmed(typed).len() == 0 && (exists|i: int|
            0 <= i < q.items.len() && (#[trigger] q.items[i]).state is Pending) ==> r is Ready && n
            == q,
        !q.busy && trimmed(typed).len() == 0 && (forall|i: int|
            0 <= i < q.items.len() ==> !((#[trigger] q.items[i]).state is Pending))
            ==> r is Refused && r->Refused_0@ == "toast.need_url"@ && n == q,
{
    if forall|i: int| 0 <= i < q.items.len() ==> !((#[trigger] q.items[i]).state is Pending) {
        lemma_no_state(q.items, QueueState::Pending, 0);
    } else {
        let i = choose|i: int|
            0 <= i < q.items.len() && (#[trigger] q.items[i]).state is Pending;
        lemma_some_state(q.items, QueueState::Pending, 0, i);
    }
}

} // verus!
