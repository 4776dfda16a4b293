use microvm::page_faults::{deferred_after, plan_batch, FaultEvent, FaultStep};

const PAGE: u64 = 4096;

fn serve(addr: u64, pfn: u64) -> FaultStep {
    FaultStep::Serve { addr, pfn }
}

#[test]
fn removals_are_handled_before_page_faults() {
    let events = vec![
        FaultEvent::Pagefault { addr: 0x5123 },
        FaultEvent::Remove { start: 0x5000, end: 0x7000 },
        FaultEvent::Other,
        FaultEvent::Pagefault { addr: 0x9000 },
        FaultEvent::Remove { start: 0x1000, end: 0x2000 },
    ];
    let steps = plan_batch(&events, &vec![3, 16], PAGE).unwrap();
    assert_eq!(
        steps,
        vec![
            FaultStep::MarkRemoved { start: 0x5000, end: 0x7000 },
            FaultStep::MarkRemoved { start: 0x1000, end: 0x2000 },
            serve(0x5123, 5),
            serve(0x9000, 9),
            serve(0x3000, 3),
            serve(0x10000, 16),
        ]
    );
}

#[test]
fn handler_is_done_without_events_and_deferred_faults() {
    assert_eq!(plan_batch(&vec![], &vec![], PAGE), None);
    assert_eq!(plan_batch(&vec![FaultEvent::Other], &vec![], PAGE), Some(vec![]));
    assert_eq!(plan_batch(&vec![], &vec![2], PAGE), Some(vec![serve(0x2000, 2)]));
}

#[test]
fn faults_that_cannot_be_served_are_deferred() {
    let steps = vec![
        FaultStep::MarkRemoved { start: 0, end: PAGE },
        serve(0x5123, 5),
        serve(0x9000, 9),
        serve(0x3000, 3),
    ];
    assert_eq!(deferred_after(&steps, &vec![true, false, true, false]), vec![5, 3]);
    assert_eq!(deferred_after(&steps, &vec![true, true, true, true]), Vec::<u64>::new());
    assert_eq!(deferred_after(&steps, &vec![false, true, true, true]), Vec::<u64>::new());
}

#[test]
fn deferred_fault_is_tried_again_at_the_start_of_its_page() {
    let events = vec![FaultEvent::Pagefault { addr: u64::MAX }];
    let steps = plan_batch(&events, &vec![], PAGE).unwrap();
    let deferred = deferred_after(&steps, &vec![false]);
    assert_eq!(deferred, vec![u64::MAX / PAGE]);
    assert_eq!(
        plan_batch(&vec![], &deferred, PAGE),
        Some(vec![serve(u64::MAX - 4095, u64::MAX / PAGE)])
    );
}
