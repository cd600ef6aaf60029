//! The board a deferred answer waits on while its outbound calls are in flight.
//!
//! A method that starts an outbound call without waiting for it answers a job
//! id; the answer is parked here when it lands and collected with
//! [`JobBoard::take`], once.

use crate::strmap::StrMap;
use crate::text::{decimal, decimal_text};
use std::collections::VecDeque;
use vstd::prelude::*;

verus! {

/// How many jobs the board remembers at once.
///
/// At the cap the oldest slot is dropped, and a `take` for it then reads
/// `Unknown`, which a caller can act on.
pub const CAPACITY: usize = 64;

/// What `take` found.
#[derive(Debug, Clone, PartialEq, Eq)]
pub enum Job {
    /// The outbound call is still in flight. Ask again.
    Pending,
    /// The answer, handed over exactly once.
    Ready(String),
    /// Never issued, already collected, or evicted at [`CAPACITY`].
    Unknown,
}

/// What [`Job`] says, with the answer as text.
pub enum JobView {
    Pending,
    Ready(Seq<char>),
    Unknown,
}

impl View for Job {
    type V = JobView;

    open spec fn view(&self) -> JobView {
        match self {
            Job::Pending => JobView::Pending,
            Job::Ready(s) => JobView::Ready(s@),
            Job::Unknown => JobView::Unknown,
        }
    }
}

/// Pending and completed answers, by job id.
#[derive(Debug)]
pub struct JobBoard {
    /// The number of the next job.
    next: u64,
    /// `None`: in flight. `Some(answer)`: completed and uncollected.
    by_id: StrMap<Option<String>>,
    /// The ids, oldest first.
    order: VecDeque<String>,
}

/// The state of a board.
#[verifier::ext_equal]
pub struct BoardView {
    /// The number of the next job.
    pub next: u64,
    /// `None`: in flight. `Some(answer)`: completed and uncollected.
    pub by_id: Map<Seq<char>, Option<Seq<char>>>,
    /// The ids, oldest first.
    pub order: Seq<Seq<char>>,
}

/// The id of job number `n`.
pub open spec fn job_id(n: u64) -> Seq<char> {
    seq!['j'] + decimal_text(n as nat)
}

/// The ids other than `id`, in their order.
pub open spec fn without(ids: Seq<Seq<char>>, id: Seq<char>) -> Seq<Seq<char>> {
    ids.filter(|x: Seq<char>| x != id)
}

/// The texts of a sequence of strings.
pub open spec fn texts(s: Seq<String>) -> Seq<Seq<char>> {
    s.map_values(|x: String| x@)
}

/// The text of an optional string.
pub open spec fn opt_text(s: Option<String>) -> Option<Seq<char>> {
    match s {
        Some(x) => Some(x@),
        None => None,
    }
}

impl BoardView {
    /// A board nothing was started on.
    pub open spec fn fresh() -> BoardView {
        BoardView { next: 1, by_id: Map::empty(), order: Seq::empty() }
    }

    /// How many slots, oldest first, must go before one more fits.
    pub open spec fn excess(self) -> int {
        if self.order.len() >= CAPACITY {
            self.order.len() - CAPACITY + 1
        } else {
            0
        }
    }

    /// The board with the `k` oldest slots dropped.
    pub open spec fn dropped(self, k: int) -> BoardView {
        BoardView {
            next: self.next,
            by_id: self.by_id.remove_keys(self.order.take(k).to_set()),
            order: self.order.skip(k),
        }
    }

    /// The board after a start.
    pub open spec fn started(self) -> BoardView {
        let room = self.dropped(self.excess());
        BoardView {
            next: if self.next == u64::MAX { 0 } else { (self.next + 1) as u64 },
            by_id: room.by_id.insert(job_id(self.next), None),
            order: room.order.push(job_id(self.next)),
        }
    }

    /// The board after `answer` landed for `id`.
    pub open spec fn completed(self, id: Seq<char>, answer: Seq<char>) -> BoardView {
        if self.by_id.contains_key(id) {
            BoardView { by_id: self.by_id.insert(id, Some(answer)), ..self }
        } else {
            self
        }
    }

    /// What a collect of `id` answers.
    pub open spec fn found(self, id: Seq<char>) -> JobView {
        if !self.by_id.contains_key(id) {
            JobView::Unknown
        } else {
            match self.by_id[id] {
                None => JobView::Pending,
                Some(answer) => JobView::Ready(answer),
            }
        }
    }

    /// The board after a collect of `id`.
    pub open spec fn taken(self, id: Seq<char>) -> BoardView {
        if self.found(id) is Ready {
            BoardView {
                by_id: self.by_id.remove(id),
                order: without(self.order, id),
                ..self
            }
        } else {
            self
        }
    }

    /// The board is in order: bounded, no id twice, a slot for each id and none
    /// besides, and every id is that of a job already started.
    pub open spec fn wf(self) -> bool {
        &&& self.order.len() <= CAPACITY
        &&& self.order.no_duplicates()
        &&& self.order.to_set() == self.by_id.dom()
        &&& forall|i: int| 0 <= i < self.order.len() ==> self.issued(#[trigger] self.order[i])
    }

    /// `id` is that of a job already started.
    pub open spec fn issued(self, id: Seq<char>) -> bool {
        exists|n: u64| n < self.next && id == #[trigger] job_id(n)
    }
}

impl View for JobBoard {
    type V = BoardView;

    closed spec fn view(&self) -> BoardView {
        BoardView {
            next: self.next,
            by_id: self.by_id@.map_values(|s: Option<String>| opt_text(s)),
            order: texts(self.order@),
        }
    }
}

impl Default for JobBoard {
    fn default() -> (r: Self)
        ensures
            r@ == BoardView::fresh(),
    {
        Self::new()
    }
}

impl JobBoard {
    /// An empty board.
    pub fn new() -> (r: Self)
        ensures
            r@ == BoardView::fresh(),
    {
        let r = JobBoard { next: 1, by_id: StrMap::new(), order: VecDeque::new() };
        assert(r@ =~= BoardView::fresh());
        r
    }

    /// Reserve an id and mark it in flight.
    pub fn start(&mut self) -> (id: String)
        ensures
            id@ == job_id(old(self)@.next),
            final(self)@ == old(self)@.started(),
    {
        let mut id: String = "j".to_owned();
        id.append(decimal(self.next).as_str());
        proof {
            reveal_strlit("j");
            assert(id@ =~= job_id(self.next));
        }
        let ghost before = self@;
        let ghost mut k: int = 0;
        assert(before.dropped(0) =~= before) by {
            assert(before.order.take(0).to_set() =~= Set::empty());
        }
        while self.order.len() >= CAPACITY
            invariant
                0 <= k <= before.order.len(),
                k <= before.excess(),
                self@ == before.dropped(k),
                before == old(self)@,
            decreases self.order@.len(),
        {
            let ghost here = self@;
            proof {
                assert(here.order == before.order.skip(k));
                assert(here.order.len() == self.order@.len());
                assert(here.order[0] == before.order[k]);
            }
            match self.order.pop_front() {
                Some(oldest) => {
                    self.by_id.remove(oldest.as_str());
                    proof {
                        assert(oldest@ == here.order[0]);
                        k = k + 1;
                        assert(before.order.take(k) =~= before.order.take(k - 1).push(before.order[k - 1]));
                        before.order.take(k - 1).lemma_push_to_set_commute(before.order[k - 1]);
                        assert(before.order.take(k).to_set() =~= before.order.take(k - 1).to_set().insert(before.order[k - 1]));
                        assert(self@.order =~= here.order.skip(1));
                        assert(here.order.skip(1) =~= before.order.skip(k));
                        assert(self@.by_id =~= here.by_id.remove(oldest@));
                        assert(here.by_id == before.by_id.remove_keys(before.order.take(k - 1).to_set()));
                        assert(self@.by_id =~= before.by_id.remove_keys(before.order.take(k).to_set()));
                    }
                },
                None => {},
            }
        }
        proof {
            assert(self@.order == before.order.skip(k));
            assert(self@.order.len() == self.order@.len());
            assert(k == before.excess());
        }
        let n: u64 = self.next;
        self.next = n.wrapping_add(1);
        self.by_id.insert(id.clone(), None);
        self.order.push_back(id.clone());
        assert(self@ =~= before.started());
        id
    }

    /// Park the answer for `id`. Nothing happens for an id that was evicted or
    /// already collected.
    pub fn complete(&mut self, id: &str, answer: String)
        ensures
            final(self)@ == old(self)@.completed(id@, answer@),
    {
        if self.by_id.contains_key(id) {
            self.by_id.insert(id.to_owned(), Some(answer));
        }
        assert(self@ =~= old(self)@.completed(id@, answer@));
    }

    /// Collect `id`. An answer is handed over once: its slot is freed.
    pub fn take(&mut self, id: &str) -> (r: Job)
        ensures
            r@ == old(self)@.found(id@),
            final(self)@ == old(self)@.taken(id@),
    {
        let ghost before = self@;
        let answer: String = match self.by_id.get(id) {
            None => return Job::Unknown,
            Some(None) => return Job::Pending,
            Some(Some(answer)) => answer.clone(),
        };
        self.by_id.remove(id);
        let want: String = id.to_owned();
        let n: usize = self.order.len();
        let mut kept: VecDeque<String> = VecDeque::new();
        let mut i: usize = 0;
        let ghost keep = |x: Seq<char>| x != id@;
        while i < n
            invariant
                i <= n,
                n == self.order@.len(),
                want@ == id@,
                keep == (|x: Seq<char>| x != id@),
                texts(kept@) == texts(self.order@).take(i as int).filter(keep),
            decreases n - i,
        {
            let x: &String = &self.order[i];
            let ghost all = texts(self.order@);
            proof {
                reveal(Seq::filter);
                assert(all.take(i + 1).drop_last() =~= all.take(i as int));
                assert(all.take(i + 1).last() == x@);
            }
            if *x != want {
                kept.push_back(x.clone());
            }
            assert(texts(kept@) =~= all.take(i + 1).filter(keep));
            i += 1;
        }
        assert(texts(self.order@).take(n as int) =~= texts(self.order@));
        self.order = kept;
        assert(self@ =~= before.taken(id@));
        Job::Ready(answer)
    }

    /// Slots held: in flight, and completed and uncollected.
    pub fn len(&self) -> (r: usize)
        ensures
            r == self@.order.len(),
    {
        self.order.len()
    }

    /// No slot is held.
    pub fn is_empty(&self) -> (r: bool)
        ensures
            r == (self@.order.len() == 0),
    {
        self.len() == 0
    }
}

} // verus!
