//! Wake handles: each one owns its own duplicate of a thread reference, and waking
//! posts a content-free event to that thread's native queue.
use vstd::prelude::*;

verus! {

/// What waking does once the target thread's identifier has been looked up.
#[derive(Debug, Clone, Copy, PartialEq, Eq)]
pub enum WakeStep {
    /// The identifier could not be resolved (the thread is most likely gone):
    /// nothing is posted, and this is no error.
    Skip,
    /// Post the sentinel event to the queue of this thread.
    Post(u32),
}

/// What waking does given the identifier that the lookup returned, `0` meaning
/// that the lookup failed.
pub open spec fn wake_step_spec(thread_id: u32) -> WakeStep {
    if thread_id == 0 {
        WakeStep::Skip
    } else {
        WakeStep::Post(thread_id)
    }
}

/// Decides a wake (see `wake_step_spec`).
pub fn wake_step(thread_id: u32) -> (r: WakeStep)
    ensures
        r == wake_step_spec(thread_id),
{
    if thread_id == 0 {
        WakeStep::Skip
    } else {
        WakeStep::Post(thread_id)
    }
}

/// Waking a handle whose thread has gone, as often as one likes, posts nothing and
/// reports nothing: every lookup fails, and every such wake is skipped.
pub proof fn lemma_wake_after_exit_is_quiet(thread_ids: Seq<u32>)
    requires
        forall|i: int| 0 <= i < thread_ids.len() ==> thread_ids[i] == 0,
    ensures
        forall|i: int|
            0 <= i < thread_ids.len() ==> wake_step_spec(#[trigger] thread_ids[i])
                == WakeStep::Skip,
{
}

/// The duplicated thread references that are open, each listed once.
pub struct HandleLedger {
    open: Vec<usize>,
}

impl View for HandleLedger {
    type V = Set<usize>;

    closed spec fn view(&self) -> Set<usize> {
        self.open@.to_set()
    }
}

/// The ledger after releasing the handles of `order`, one after another, and
/// whether each release found its handle open.
pub open spec fn release_all(live: Set<usize>, order: Seq<usize>) -> (Set<usize>, Seq<bool>)
    decreases order.len(),
{
    if order.len() == 0 {
        (live, Seq::empty())
    } else {
        let h = order[0];
        let (rest, found) = release_all(live.remove(h), order.drop_first());
        (rest, seq![live.contains(h)] + found)
    }
}

impl HandleLedger {
    /// Each handle is listed once.
    pub closed spec fn wf(&self) -> bool {
        self.open@.no_duplicates()
    }

    /// An empty ledger.
    pub fn new() -> (l: HandleLedger)
        ensures
            l.wf(),
            l@ == Set::<usize>::empty(),
    {
        let l = HandleLedger { open: Vec::new() };
        assert(l@ =~= Set::<usize>::empty());
        l
    }

    fn position(&self, h: usize) -> (r: Option<usize>)
        ensures
            match r {
                Some(i) => i < self.open@.len() && self.open@[i as int] == h,
                None => !self.open@.contains(h),
            },
    {
        let mut i: usize = 0;
        while i < self.open.len()
            invariant
                i <= self.open@.len(),
                forall|j: int| 0 <= j < i ==> self.open@[j] != h,
            decreases self.open@.len() - i,
        {
            if self.open[i] == h {
                return Some(i);
            }
            i = i + 1;
        }
        None
    }

    /// Whether `h` is open.
    pub fn is_open(&self, h: usize) -> (r: bool)
        ensures
            r == self@.contains(h),
    {
        match self.position(h) {
            Some(i) => {
                assert(self.open@.contains(h));
                true
            },
            None => false,
        }
    }

    /// How many handles are open.
    pub fn live(&self) -> (n: usize)
        requires
            self.wf(),
        ensures
            n == self@.len(),
    {
        proof {
            self.open@.unique_seq_to_set();
        }
        self.open.len()
    }

    /// Records a freshly duplicated handle. Returns `false`, and changes nothing,
    /// when `h` is already open.
    pub fn acquire(&mut self, h: usize) -> (r: bool)
        requires
            old(self).wf(),
        ensures
            final(self).wf(),
            r == !old(self)@.contains(h),
            final(self)@ == old(self)@.insert(h),
    {
        if self.is_open(h) {
            assert(self@ =~= self@.insert(h));
            false
        } else {
            let ghost before = self.open@;
            self.open.push(h);
            proof {
                assert(self.open@ == before.push(h));
                assert(self@ =~= before.to_set().insert(h)) by {
                    assert forall|x: usize| self@.contains(x) implies before.to_set().insert(
                        x,
                    ).contains(x) by {}
                    assert forall|x: usize| #[trigger] before.to_set().insert(h).contains(x) implies self@.contains(x) by {
                        if x == h {
                            assert(self.open@[before.len() as int] == h);
                        } else {
                            let j = choose|j: int| 0 <= j < before.len() && before[j] == x;
                            assert(self.open@[j] == x);
                        }
                    }
                }
            }
            true
        }
    }

    /// Records that `h` is being closed. Returns `true` exactly when `h` was open:
    /// a `false` means that closing it now would be a second release.
    pub fn release(&mut self, h: usize) -> (r: bool)
        requires
            old(self).wf(),
        ensures
            final(self).wf(),
            r == old(self)@.contains(h),
            final(self)@ == old(self)@.remove(h),
    {
        match self.position(h) {
            None => {
                assert(self@ =~= self@.remove(h));
                false
            },
            Some(i) => {
                let ghost before = self.open@;
                self.open.remove(i);
                proof {
                    assert(self.open@ == before.remove(i as int));
                    assert(before.contains(h));
                    assert(self.open@.no_duplicates());
                    assert(self@ =~= before.to_set().remove(h)) by {
                        assert forall|x: usize| self@.contains(x) implies before.to_set().remove(
                            h,
                        ).contains(x) by {
                            let j = choose|j: int| 0 <= j < self.open@.len() && self.open@[j] == x;
                            if j < i {
                                assert(before[j] == x);
                            } else {
                                assert(before[j + 1] == x);
                            }
                        }
                        assert forall|x: usize| #[trigger] before.to_set().remove(h).contains(x) implies self@.contains(x) by {
                            let j = choose|j: int| 0 <= j < before.len() && before[j] == x;
                            if j < i {
                                assert(self.open@[j] == x);
                            } else {
                                assert(self.open@[j - 1] == x);
                            }
                        }
                    }
                }
                true
            },
        }
    }
}

/// Releasing every open handle once, in any order, finds each one open (no double
/// release) and leaves none open (no leak).
pub proof fn lemma_release_in_any_order(live: Set<usize>, order: Seq<usize>)
    requires
        order.no_duplicates(),
        order.to_set() == live,
    ensures
        release_all(live, order).0 == Set::<usize>::empty(),
        forall|i: int| 0 <= i < order.len() ==> #[trigger] release_all(live, order).1[i],
        release_all(live, order).1.len() == order.len(),
    decreases order.len(),
{
    if order.len() == 0 {
        assert(live =~= Set::<usize>::empty());
    } else {
        let h = order[0];
        let tail = order.drop_first();
        assert(tail.to_set() =~= live.remove(h)) by {
            assert forall|x: usize| tail.to_set().contains(x) implies live.remove(h).contains(x) by {
                let j = choose|j: int| 0 <= j < tail.len() && tail[j] == x;
                assert(order[j + 1] == x);
            }
            assert forall|x: usize| #[trigger] live.remove(h).contains(x) implies tail.to_set().contains(x) by {
                let j = choose|j: int| 0 <= j < order.len() && order[j] == x;
                assert(j != 0);
                assert(tail[j - 1] == x);
            }
        }
        assert(live.contains(h)) by {
            assert(order[0] == h);
        }
        lemma_release_in_any_order(live.remove(h), tail);
        let found = release_all(live, order).1;
        assert forall|i: int| 0 <= i < order.len() implies #[trigger] found[i] by {
            if i > 0 {
                assert(found[i] == release_all(live.remove(h), tail).1[i - 1]);
            }
        }
    }
}

/// Releasing a handle a second time finds it closed.
pub proof fn lemma_second_release_finds_nothing(live: Set<usize>, h: usize)
    ensures
        release_all(live, seq![h, h]).1 == seq![live.contains(h), false],
{
    let order = seq![h, h];
    assert(order.drop_first() == seq![h]);
    assert(seq![h].drop_first() =~= Seq::<usize>::empty());
    assert(!live.remove(h).contains(h));
    assert(release_all(live.remove(h).remove(h), Seq::<usize>::empty()).1 =~= Seq::<bool>::empty());
    assert(release_all(live.remove(h), seq![h]).1 =~= seq![false]);
    assert(release_all(live, order).1 =~= seq![live.contains(h), false]);
}

} // verus!
