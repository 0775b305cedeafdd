use apex_tux::Multiplexer;
use apex_tux::PollOutcome;
use apex_tux::ScriptStep;
use apex_tux::VecSource;
use apex_tux::multiplex;

fn source(items: Vec<ScriptStep<u32>>) -> VecSource<u32> {
    VecSource::new(items)
}

#[test]
fn only_the_selected_source_is_ever_polled() {
    let sources = vec![
        source(vec![ScriptStep::Emit(1), ScriptStep::Emit(2)]),
        source(vec![ScriptStep::Emit(10), ScriptStep::Emit(20)]),
        source(vec![ScriptStep::Emit(100)]),
    ];
    let mut mux = multiplex(sources);
    // The index selector always answers 1.
    for _ in 0..4 {
        mux.poll_next(1);
    }
    let back = mux.into_inner();
    assert_eq!(back[0].polls_made(), 0);
    assert_eq!(back[1].polls_made(), 4);
    assert_eq!(back[2].polls_made(), 0);
}

#[test]
fn round_trip_yields_each_sources_items_in_order() {
    let sources = vec![
        source(vec![ScriptStep::Emit(1), ScriptStep::Emit(2)]),
        source(vec![ScriptStep::Emit(10)]),
    ];
    let mut mux = Multiplexer::new(sources);
    // Selecting [0, 1, 0] yields what sources 0, 1, 0 produce in that order.
    assert_eq!(mux.poll_next(0), PollOutcome::Item(1));
    assert_eq!(mux.poll_next(1), PollOutcome::Item(10));
    assert_eq!(mux.poll_next(0), PollOutcome::Item(2));
    let back = mux.into_inner();
    // Source 1 advanced by exactly one pull.
    assert_eq!(back[1].polls_made(), 1);
}

#[test]
fn a_waiting_step_reports_pending_without_an_item() {
    let sources = vec![source(vec![ScriptStep::Wait, ScriptStep::Emit(7)])];
    let mut mux = multiplex(sources);
    assert_eq!(mux.poll_next(0), PollOutcome::Pending);
    assert_eq!(mux.poll_next(0), PollOutcome::Item(7));
}

#[test]
fn an_exhausted_source_stays_exhausted() {
    let sources = vec![source(vec![ScriptStep::Emit(1)])];
    let mut mux = multiplex(sources);
    assert_eq!(mux.poll_next(0), PollOutcome::Item(1));
    assert_eq!(mux.poll_next(0), PollOutcome::Exhausted);
    assert_eq!(mux.poll_next(0), PollOutcome::Exhausted);
}

#[test]
fn terminated_only_when_every_source_is() {
    let sources = vec![source(vec![ScriptStep::Emit(1)]), source(vec![])];
    let mut mux = multiplex(sources);
    assert!(!mux.is_terminated());
    assert_eq!(mux.poll_next(0), PollOutcome::Item(1));
    assert!(mux.is_terminated());
}

#[test]
fn multiplexer_len_counts_the_sources() {
    let mux = multiplex(vec![source(vec![]), source(vec![]), source(vec![])]);
    assert_eq!(mux.len(), 3);
}
