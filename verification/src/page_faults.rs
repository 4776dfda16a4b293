//! Serving page faults from a memory file, batch by batch.
//!
//! A batch is all the events that are there to be read. Ranges that the guest gave back are
//! marked before any fault of the batch is served, so that a fault on such a range is served by
//! a zero page and not from the file. A fault that cannot be served yet is tried again in the
//! next batch.

use vstd::prelude::*;

verus! {

/// An event of a userfaultfd.
#[derive(Debug, Clone, Copy, PartialEq, Eq, Structural)]
pub enum FaultEvent {
    /// The guest gave back the range from `start` up to `end`.
    Remove {
        /// First address of the range.
        start: u64,
        /// First address behind the range.
        end: u64,
    },
    /// The guest touched a page that is not there.
    Pagefault {
        /// The address that was touched.
        addr: u64,
    },
    /// Any other event; it asks for nothing.
    Other,
}

/// Something to do about a batch of events.
#[derive(Debug, Clone, Copy, PartialEq, Eq, Structural)]
pub enum FaultStep {
    /// Mark the range from `start` up to `end` as removed.
    MarkRemoved {
        /// First address of the range.
        start: u64,
        /// First address behind the range.
        end: u64,
    },
    /// Serve the fault at `addr`.
    Serve {
        /// The address to bring the page of.
        addr: u64,
        /// The page's frame number, under which the fault is kept where it cannot be served.
        pfn: u64,
    },
}

/// The ranges to mark, in the order of their events.
pub open spec fn removals(events: Seq<FaultEvent>) -> Seq<FaultStep>
    decreases events.len(),
{
    if events.len() == 0 {
        Seq::empty()
    } else {
        match events.last() {
            FaultEvent::Remove { start, end } => removals(events.drop_last()).push(
                FaultStep::MarkRemoved { start, end },
            ),
            _ => removals(events.drop_last()),
        }
    }
}

/// The new faults to serve, in the order of their events.
pub open spec fn new_faults(events: Seq<FaultEvent>, page_size: u64) -> Seq<FaultStep>
    decreases events.len(),
{
    if events.len() == 0 {
        Seq::empty()
    } else {
        match events.last() {
            FaultEvent::Pagefault { addr } => new_faults(events.drop_last(), page_size).push(
                FaultStep::Serve { addr, pfn: addr / page_size },
            ),
            _ => new_faults(events.drop_last(), page_size),
        }
    }
}

/// Whether every deferred page has an address.
pub open spec fn addressable(deferred: Seq<u64>, page_size: u64) -> bool {
    forall|i: int| 0 <= i < deferred.len() ==> #[trigger] deferred[i] * page_size <= u64::MAX
}

/// The deferred faults to try again, each at the address of its page.
pub open spec fn deferred_faults(deferred: Seq<u64>, page_size: u64) -> Seq<FaultStep> {
    Seq::new(
        deferred.len(),
        |i: int| FaultStep::Serve { addr: (deferred[i] * page_size) as u64, pfn: deferred[i] },
    )
}

/// All that is to be done about a batch: ranges are marked first, then new faults are served,
/// then deferred ones.
pub open spec fn batch_steps(
    events: Seq<FaultEvent>,
    deferred: Seq<u64>,
    page_size: u64,
) -> Seq<FaultStep> {
    removals(events) + new_faults(events, page_size) + deferred_faults(deferred, page_size)
}

/// Returns what is to be done about the events that were read and the faults that were deferred,
/// in order; `None` where there are neither, and the handler is done.
pub fn plan_batch(events: &Vec<FaultEvent>, deferred: &Vec<u64>, page_size: u64) -> (plan: Option<
    Vec<FaultStep>,
>)
    requires
        page_size > 0,
        addressable(deferred@, page_size),
    ensures
        match plan {
            Some(steps) => {
                &&& events@.len() > 0 || deferred@.len() > 0
                &&& steps@ == batch_steps(events@, deferred@, page_size)
            },
            None => events@.len() == 0 && deferred@.len() == 0,
        },
{
    if events.len() == 0 && deferred.len() == 0 {
        return None;
    }
    let mut steps: Vec<FaultStep> = Vec::new();
    let mut i: usize = 0;
    assert(events@.take(0) =~= Seq::<FaultEvent>::empty());
    while i < events.len()
        invariant
            i <= events@.len(),
            steps@ == removals(events@.take(i as int)),
        decreases events@.len() - i,
    {
        assert(events@.take(i + 1).drop_last() =~= events@.take(i as int));
        if let FaultEvent::Remove { start, end } = events[i] {
            steps.push(FaultStep::MarkRemoved { start, end });
        }
        i += 1;
    }
    assert(events@.take(i as int) =~= events@);
    let ghost marked = steps@;
    let mut j: usize = 0;
    assert(steps@ =~= marked + new_faults(events@.take(0), page_size));
    while j < events.len()
        invariant
            j <= events@.len(),
            page_size > 0,
            steps@ == marked + new_faults(events@.take(j as int), page_size),
        decreases events@.len() - j,
    {
        assert(events@.take(j + 1).drop_last() =~= events@.take(j as int));
        if let FaultEvent::Pagefault { addr } = events[j] {
            steps.push(FaultStep::Serve { addr, pfn: addr / page_size });
        }
        assert(steps@ =~= marked + new_faults(events@.take(j + 1), page_size));
        j += 1;
    }
    assert(events@.take(j as int) =~= events@);
    let ghost served = steps@;
    let mut k: usize = 0;
    while k < deferred.len()
        invariant
            k <= deferred@.len(),
            addressable(deferred@, page_size),
            steps@ == served + deferred_faults(deferred@.take(k as int), page_size),
        decreases deferred@.len() - k,
    {
        let pfn: u64 = deferred[k];
        assert(deferred@[k as int] * page_size <= u64::MAX);
        assert(pfn * page_size >= 0) by (nonlinear_arith);
        steps.push(FaultStep::Serve { addr: pfn * page_size, pfn });
        assert(steps@ =~= served + deferred_faults(deferred@.take(k + 1), page_size));
        k += 1;
    }
    assert(deferred@.take(k as int) =~= deferred@);
    Some(steps)
}

/// The pages of the faults that were tried and could not be served, in the order in which they
/// were tried. Of `served`, entry `i` says whether step `i` succeeded.
pub open spec fn unserved(steps: Seq<FaultStep>, served: Seq<bool>) -> Seq<u64>
    decreases steps.len(),
{
    if steps.len() == 0 {
        Seq::empty()
    } else {
        match steps.last() {
            FaultStep::Serve { pfn, .. } if !served[steps.len() - 1] => unserved(
                steps.drop_last(),
                served,
            ).push(pfn),
            _ => unserved(steps.drop_last(), served),
        }
    }
}

/// Returns the pages of the faults that could not be served, to be tried again in the next batch.
pub fn deferred_after(steps: &Vec<FaultStep>, served: &Vec<bool>) -> (deferred: Vec<u64>)
    requires
        served@.len() == steps@.len(),
    ensures
        deferred@ == unserved(steps@, served@),
{
    let mut deferred: Vec<u64> = Vec::new();
    let mut i: usize = 0;
    assert(steps@.take(0) =~= Seq::<FaultStep>::empty());
    while i < steps.len()
        invariant
            i <= steps@.len(),
            served@.len() == steps@.len(),
            deferred@ == unserved(steps@.take(i as int), served@),
        decreases steps@.len() - i,
    {
        assert(steps@.take(i + 1).drop_last() =~= steps@.take(i as int));
        if let FaultStep::Serve { pfn, .. } = steps[i] {
            if !served[i] {
                deferred.push(pfn);
            }
        }
        i += 1;
    }
    assert(steps@.take(i as int) =~= steps@);
    deferred
}

/// Removals mark ranges and nothing else, and each event that removes a range is among them.
proof fn lemma_removals(events: Seq<FaultEvent>)
    ensures
        forall|i: int| 0 <= i < removals(events).len() ==> #[trigger] removals(events)[i]
            is MarkRemoved,
        forall|i: int|
            0 <= i < events.len() ==> match #[trigger] events[i] {
                FaultEvent::Remove { start, end } => removals(events).contains(
                    FaultStep::MarkRemoved { start, end },
                ),
                _ => true,
            },
    decreases events.len(),
{
    if events.len() > 0 {
        let rest = events.drop_last();
        lemma_removals(rest);
        if let FaultEvent::Remove { start, end } = events.last() {
            let step = FaultStep::MarkRemoved { start, end };
            assert(removals(events)[removals(rest).len() as int] == step);
            assert forall|i: int| 0 <= i < rest.len() implies match #[trigger] events[i] {
                FaultEvent::Remove { start, end } => removals(events).contains(
                    FaultStep::MarkRemoved { start, end },
                ),
                _ => true,
            } by {
                assert(events[i] == rest[i]);
                if let FaultEvent::Remove { start, end } = events[i] {
                    crate::free_pages::lemma_contains_push(
                        removals(rest),
                        step,
                        FaultStep::MarkRemoved { start, end },
                    );
                }
            }
        } else {
            assert(forall|i: int| 0 <= i < rest.len() ==> #[trigger] events[i] == rest[i]);
        }
    }
}

/// New faults are served, in their pages, and each of them is among the steps.
proof fn lemma_new_faults(events: Seq<FaultEvent>, page_size: u64)
    requires
        page_size > 0,
    ensures
        forall|i: int|
            0 <= i < new_faults(events, page_size).len() ==> match #[trigger] new_faults(
                events,
                page_size,
            )[i] {
                FaultStep::Serve { addr, pfn } => pfn == addr / page_size,
                _ => false,
            },
        forall|i: int|
            0 <= i < events.len() ==> match #[trigger] events[i] {
                FaultEvent::Pagefault { addr } => new_faults(events, page_size).contains(
                    FaultStep::Serve { addr, pfn: addr / page_size },
                ),
                _ => true,
            },
    decreases events.len(),
{
    if events.len() > 0 {
        let rest = events.drop_last();
        lemma_new_faults(rest, page_size);
        if let FaultEvent::Pagefault { addr } = events.last() {
            let step = FaultStep::Serve { addr, pfn: addr / page_size };
            assert(new_faults(events, page_size)[new_faults(rest, page_size).len() as int] == step);
            assert forall|i: int| 0 <= i < rest.len() implies match #[trigger] events[i] {
                FaultEvent::Pagefault { addr } => new_faults(events, page_size).contains(
                    FaultStep::Serve { addr, pfn: addr / page_size },
                ),
                _ => true,
            } by {
                assert(events[i] == rest[i]);
                if let FaultEvent::Pagefault { addr } = events[i] {
                    crate::free_pages::lemma_contains_push(
                        new_faults(rest, page_size),
                        step,
                        FaultStep::Serve { addr, pfn: addr / page_size },
                    );
                }
            }
        } else {
            assert(forall|i: int| 0 <= i < rest.len() ==> #[trigger] events[i] == rest[i]);
        }
    }
}

/// In a batch every range is marked as removed before any fault is served.
pub proof fn law_removals_come_first(
    events: Seq<FaultEvent>,
    deferred: Seq<u64>,
    page_size: u64,
    i: int,
    j: int,
)
    requires
        page_size > 0,
        0 <= i < batch_steps(events, deferred, page_size).len(),
        0 <= j < batch_steps(events, deferred, page_size).len(),
        batch_steps(events, deferred, page_size)[i] is MarkRemoved,
        batch_steps(events, deferred, page_size)[j] is Serve,
    ensures
        i < j,
{
    lemma_removals(events);
    lemma_new_faults(events, page_size);
    let marks = removals(events);
    let served = marks + new_faults(events, page_size);
    if i >= marks.len() {
        if i < served.len() {
            assert(served[i] == new_faults(events, page_size)[i - marks.len()]);
        } else {
            assert(batch_steps(events, deferred, page_size)[i] == deferred_faults(
                deferred,
                page_size,
            )[i - served.len()]);
        }
    }
    if j < marks.len() {
        assert(batch_steps(events, deferred, page_size)[j] == marks[j]);
    }
}

/// A batch leaves nothing out: every removed range is marked, and every fault, new or deferred,
/// is tried.
pub proof fn law_batch_is_complete(events: Seq<FaultEvent>, deferred: Seq<u64>, page_size: u64)
    requires
        page_size > 0,
    ensures
        forall|i: int|
            0 <= i < events.len() ==> match #[trigger] events[i] {
                FaultEvent::Remove { start, end } => batch_steps(
                    events,
                    deferred,
                    page_size,
                ).contains(FaultStep::MarkRemoved { start, end }),
                FaultEvent::Pagefault { addr } => batch_steps(
                    events,
                    deferred,
                    page_size,
                ).contains(FaultStep::Serve { addr, pfn: addr / page_size }),
                FaultEvent::Other => true,
            },
        forall|i: int|
            0 <= i < deferred.len() ==> batch_steps(events, deferred, page_size).contains(
                FaultStep::Serve {
                    addr: (#[trigger] deferred[i] * page_size) as u64,
                    pfn: deferred[i],
                },
            ),
{
    lemma_removals(events);
    lemma_new_faults(events, page_size);
    let marks = removals(events);
    let faults = new_faults(events, page_size);
    let steps = batch_steps(events, deferred, page_size);
    assert forall|i: int| 0 <= i < events.len() implies match #[trigger] events[i] {
        FaultEvent::Remove { start, end } => steps.contains(FaultStep::MarkRemoved { start, end }),
        FaultEvent::Pagefault { addr } => steps.contains(
            FaultStep::Serve { addr, pfn: addr / page_size },
        ),
        FaultEvent::Other => true,
    } by {
        match events[i] {
            FaultEvent::Remove { start, end } => {
                let step = FaultStep::MarkRemoved { start, end };
                let k = choose|k: int| 0 <= k < marks.len() && marks[k] == step;
                assert(steps[k] == step);
            },
            FaultEvent::Pagefault { addr } => {
                let step = FaultStep::Serve { addr, pfn: addr / page_size };
                let k = choose|k: int| 0 <= k < faults.len() && faults[k] == step;
                assert(steps[marks.len() + k] == step);
            },
            FaultEvent::Other => {},
        }
    }
    assert forall|i: int| 0 <= i < deferred.len() implies steps.contains(
        FaultStep::Serve { addr: (#[trigger] deferred[i] * page_size) as u64, pfn: deferred[i] },
    ) by {
        assert(steps[marks.len() + faults.len() + i] == FaultStep::Serve {
            addr: (deferred[i] * page_size) as u64,
            pfn: deferred[i],
        });
    }
}

/// No fault is lost: one that was tried and not served is deferred, and nothing else is.
pub proof fn law_no_fault_is_lost(steps: Seq<FaultStep>, served: Seq<bool>, page: u64)
    requires
        served.len() == steps.len(),
    ensures
        unserved(steps, served).contains(page) <==> exists|i: int|
            0 <= i < steps.len() && !served[i] && (#[trigger] steps[i] matches FaultStep::Serve {
                pfn,
                ..
            } && pfn == page),
{
    lemma_unserved(steps, served, page);
}

proof fn lemma_unserved(steps: Seq<FaultStep>, served: Seq<bool>, page: u64)
    requires
        served.len() >= steps.len(),
    ensures
        unserved(steps, served).contains(page) <==> exists|i: int|
            0 <= i < steps.len() && !served[i] && (#[trigger] steps[i] matches FaultStep::Serve {
                pfn,
                ..
            } && pfn == page),
    decreases steps.len(),
{
    if steps.len() > 0 {
        let rest = steps.drop_last();
        lemma_unserved(rest, served, page);
        let last = steps.len() - 1;
        assert(steps.last() == steps[last]);
        if exists|i: int|
            0 <= i < rest.len() && !served[i] && (#[trigger] rest[i] matches FaultStep::Serve {
                pfn,
                ..
            } && pfn == page) {
            let i = choose|i: int|
                0 <= i < rest.len() && !served[i] && (#[trigger] rest[i] matches FaultStep::Serve {
                    pfn,
                    ..
                } && pfn == page);
            assert(steps[i] == rest[i]);
        }
        if exists|i: int|
            0 <= i < steps.len() && !served[i] && (#[trigger] steps[i] matches FaultStep::Serve {
                pfn,
                ..
            } && pfn == page) {
            let i = choose|i: int|
                0 <= i < steps.len() && !served[i] && (#[trigger] steps[i]
                    matches FaultStep::Serve { pfn, .. } && pfn == page);
            if i < rest.len() {
                assert(steps[i] == rest[i]);
            }
        }
        match steps.last() {
            FaultStep::Serve { pfn, .. } if !served[last] => {
                crate::free_pages::lemma_contains_push(unserved(rest, served), pfn, page);
            },
            _ => {},
        }
    }
}

/// A fault is tried again at the start of its page, and every deferred page has an address.
pub proof fn law_deferred_pages_are_addressable(
    events: Seq<FaultEvent>,
    deferred: Seq<u64>,
    page_size: u64,
    served: Seq<bool>,
)
    requires
        page_size > 0,
        addressable(deferred, page_size),
        served.len() == batch_steps(events, deferred, page_size).len(),
    ensures
        addressable(unserved(batch_steps(events, deferred, page_size), served), page_size),
        forall|addr: u64|
            (#[trigger] (addr / page_size)) * page_size == addr - addr % page_size,
{
    let steps = batch_steps(events, deferred, page_size);
    let next = unserved(steps, served);
    lemma_removals(events);
    lemma_new_faults(events, page_size);
    assert forall|addr: u64| (#[trigger] (addr / page_size)) * page_size == addr - addr
        % page_size by {
        vstd::arithmetic::div_mod::lemma_fundamental_div_mod(addr as int, page_size as int);
        vstd::arithmetic::mul::lemma_mul_is_commutative(
            (addr / page_size) as int,
            page_size as int,
        );
    }
    assert forall|i: int| 0 <= i < next.len() implies #[trigger] next[i] * page_size
        <= u64::MAX by {
        law_no_fault_is_lost(steps, served, next[i]);
        assert(next.contains(next[i]));
        let k = choose|k: int|
            0 <= k < steps.len() && !served[k] && (#[trigger] steps[k] matches FaultStep::Serve {
                pfn,
                ..
            } && pfn == next[i]);
        let marks = removals(events).len();
        let faults = new_faults(events, page_size);
        if k < marks {
            assert(steps[k] == removals(events)[k]);
        } else if k < marks + faults.len() {
            assert(steps[k] == faults[k - marks]);
            let addr = steps[k]->addr;
            assert((addr / page_size) * page_size == addr - addr % page_size);
        } else {
            assert(steps[k] == deferred_faults(deferred, page_size)[k - marks - faults.len()]);
            assert(deferred[k - marks - faults.len()] * page_size <= u64::MAX);
        }
    }
}

/// A batch does nothing that was not asked for: a range is marked only because an event gave it
/// back, and a fault is served only because an event reports it, at the address that was touched,
/// or because it was deferred, at the start of its page.
pub proof fn law_batch_does_only_what_is_asked(
    events: Seq<FaultEvent>,
    deferred: Seq<u64>,
    page_size: u64,
    i: int,
)
    requires
        page_size > 0,
        addressable(deferred, page_size),
        0 <= i < batch_steps(events, deferred, page_size).len(),
    ensures
        match batch_steps(events, deferred, page_size)[i] {
            FaultStep::MarkRemoved { start, end } => events.contains(
                FaultEvent::Remove { start, end },
            ),
            FaultStep::Serve { addr, pfn } => (events.contains(FaultEvent::Pagefault { addr })
                && pfn * page_size <= addr < (pfn + 1) * page_size) || (deferred.contains(pfn)
                && addr == pfn * page_size),
        },
{
    let marks = removals(events);
    let faults = new_faults(events, page_size);
    let steps = batch_steps(events, deferred, page_size);
    if i < marks.len() {
        assert(steps[i] == marks[i]);
        lemma_step_has_its_event(events, page_size, i);
    } else if i < marks.len() + faults.len() {
        assert(steps[i] == faults[i - marks.len()]);
        lemma_step_has_its_event(events, page_size, i - marks.len());
        let addr = steps[i]->addr;
        let pfn = steps[i]->pfn;
        vstd::arithmetic::div_mod::lemma_fundamental_div_mod(addr as int, page_size as int);
        assert(pfn * page_size <= addr < (pfn + 1) * page_size) by (nonlinear_arith)
            requires
                addr == page_size * pfn + addr as int % page_size as int,
                0 <= addr as int % (page_size as int) < page_size,
        ;
    } else {
        let k = i - marks.len() - faults.len();
        assert(steps[i] == deferred_faults(deferred, page_size)[k]);
        assert(deferred[k] * page_size <= u64::MAX);
        assert(deferred[k] * page_size >= 0) by (nonlinear_arith);
        assert(deferred.contains(deferred[k]));
    }
}

/// Each removal and each new fault comes from an event.
proof fn lemma_step_has_its_event(events: Seq<FaultEvent>, page_size: u64, i: int)
    requires
        page_size > 0,
    ensures
        0 <= i < removals(events).len() ==> (removals(events)[i] matches FaultStep::MarkRemoved {
            start,
            end,
        } && events.contains(FaultEvent::Remove { start, end })),
        0 <= i < new_faults(events, page_size).len() ==> (new_faults(events, page_size)[i]
            matches FaultStep::Serve { addr, pfn } && events.contains(
            FaultEvent::Pagefault { addr },
        ) && pfn == addr / page_size),
    decreases events.len(),
{
    if events.len() > 0 {
        let rest = events.drop_last();
        lemma_step_has_its_event(rest, page_size, i);
        assert(events[events.len() - 1] == events.last());
        assert forall|event: FaultEvent| rest.contains(event) implies events.contains(event) by {
            let k = choose|k: int| 0 <= k < rest.len() && rest[k] == event;
            assert(events[k] == event);
        }
        assert(events.contains(events.last()));
    }
}

/// A batch keeps the order of its events: what two rows of events ask for, one behind the other, is
/// what the first asks for and then what the second asks for, of one event a removal asks for one
/// mark, a fault for one service in the page of its address, and any other event for nothing.
pub proof fn law_batch_keeps_the_order(
    a: Seq<FaultEvent>,
    b: Seq<FaultEvent>,
    event: FaultEvent,
    page_size: u64,
)
    requires
        page_size > 0,
    ensures
        removals(a + b) == removals(a) + removals(b),
        new_faults(a + b, page_size) == new_faults(a, page_size) + new_faults(b, page_size),
        removals(seq![event]) == match event {
            FaultEvent::Remove { start, end } => seq![FaultStep::MarkRemoved { start, end }],
            _ => Seq::empty(),
        },
        new_faults(seq![event], page_size) == match event {
            FaultEvent::Pagefault { addr } => seq![
                FaultStep::Serve { addr, pfn: addr / page_size },
            ],
            _ => Seq::empty(),
        },
    decreases b.len(),
{
    let one = seq![event];
    assert(one.drop_last() =~= Seq::empty());
    assert(removals(one.drop_last()) == Seq::<FaultStep>::empty());
    assert(new_faults(one.drop_last(), page_size) == Seq::<FaultStep>::empty());
    assert(removals(one) =~= match event {
        FaultEvent::Remove { start, end } => seq![FaultStep::MarkRemoved { start, end }],
        _ => Seq::empty(),
    });
    assert(new_faults(one, page_size) =~= match event {
        FaultEvent::Pagefault { addr } => seq![FaultStep::Serve { addr, pfn: addr / page_size }],
        _ => Seq::empty(),
    });
    if b.len() == 0 {
        assert(a + b =~= a);
        assert(removals(a) + removals(b) =~= removals(a));
        assert(new_faults(a, page_size) + new_faults(b, page_size) =~= new_faults(a, page_size));
    } else {
        assert((a + b).drop_last() =~= a + b.drop_last());
        law_batch_keeps_the_order(a, b.drop_last(), event, page_size);
        assert(removals(a + b) =~= removals(a) + removals(b));
        assert(new_faults(a + b, page_size) =~= new_faults(a, page_size) + new_faults(
            b,
            page_size,
        ));
    }
}

/// Deferred faults come last in a batch, one step each, in the order in which they were deferred
/// and at the start of their pages.
pub proof fn law_deferred_faults_come_last(
    events: Seq<FaultEvent>,
    deferred: Seq<u64>,
    page_size: u64,
)
    requires
        addressable(deferred, page_size),
    ensures
        ({
            let steps = batch_steps(events, deferred, page_size);
            let first = steps.len() - deferred.len();
            &&& first == removals(events).len() + new_faults(events, page_size).len()
            &&& steps.take(first) == removals(events) + new_faults(events, page_size)
            &&& forall|i: int|
                0 <= i < deferred.len() ==> (steps[first + i] matches FaultStep::Serve { addr, pfn }
                    && pfn == #[trigger] deferred[i] && addr == pfn * page_size)
        }),
{
    let steps = batch_steps(events, deferred, page_size);
    let front = removals(events) + new_faults(events, page_size);
    assert(steps.take(front.len() as int) =~= front);
    assert forall|i: int| 0 <= i < deferred.len() implies (steps[front.len() + i]
        matches FaultStep::Serve { addr, pfn } && pfn == #[trigger] deferred[i] && addr == pfn
        * page_size) by {
        assert(deferred[i] * page_size <= u64::MAX);
        assert(deferred[i] * page_size >= 0) by (nonlinear_arith);
    }
}

/// Faults are deferred in the order in which they were tried, each once: one more step adds its
/// page exactly if it is a fault that was not served.
pub proof fn law_unserved_faults_keep_their_order(
    steps: Seq<FaultStep>,
    served: Seq<bool>,
    step: FaultStep,
    is_served: bool,
)
    requires
        served.len() == steps.len(),
    ensures
        unserved(Seq::empty(), served) == Seq::<u64>::empty(),
        unserved(steps.push(step), served.push(is_served)) == match step {
            FaultStep::Serve { pfn, .. } => if is_served {
                unserved(steps, served)
            } else {
                unserved(steps, served).push(pfn)
            },
            FaultStep::MarkRemoved { .. } => unserved(steps, served),
        },
{
    assert(steps.push(step).drop_last() =~= steps);
    lemma_unserved_looks_no_further(steps, served, is_served);
}

proof fn lemma_unserved_looks_no_further(steps: Seq<FaultStep>, served: Seq<bool>, more: bool)
    requires
        served.len() >= steps.len(),
    ensures
        unserved(steps, served.push(more)) == unserved(steps, served),
    decreases steps.len(),
{
    if steps.len() > 0 {
        lemma_unserved_looks_no_further(steps.drop_last(), served, more);
        assert(served.push(more)[steps.len() - 1] == served[steps.len() - 1]);
    }
}

} // verus!
