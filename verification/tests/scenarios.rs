use iron::chain::{Chain, ChainStatus};
use iron::middleware::{Show, Status};
use iron::probe::{Probe, Reaction, ENTER_MARK, ERROR_MARK, EXIT_MARK};
use iron::request::Request;
use iron::response::Response;
use iron::stackchain::StackChain;

fn recorder(id: u64, reaction: Reaction) -> Probe {
    Probe::Recorder { id, reaction }
}

#[test]
fn empty_chain_continues_without_calls() {
    let mut chain: StackChain<Probe> = Chain::new();
    let mut request = Request::new();
    let mut response = Response::new();
    let status = chain.dispatch(&mut request, &mut response);
    assert!(matches!(status, Status::Continue));
    assert!(request.body.is_empty());
    assert!(response.body.is_empty());
}

#[test]
fn all_continue_runs_forward_then_backward() {
    let mut chain: StackChain<Probe> = Chain::new();
    chain.link(recorder(1, Reaction::Proceed));
    chain.link(recorder(2, Reaction::Proceed));
    chain.link(recorder(3, Reaction::Proceed));
    let mut request = Request::new();
    let mut response = Response::new();
    let status = chain.dispatch(&mut request, &mut response);
    assert!(matches!(status, Status::Continue));
    assert_eq!(
        response.body,
        vec![
            1, ENTER_MARK, 2, ENTER_MARK, 3, ENTER_MARK, 3, EXIT_MARK, 2, EXIT_MARK, 1, EXIT_MARK,
        ]
    );
}

#[test]
fn unwind_stops_forward_pass_and_unwinds_entered_handlers() {
    let mut chain: StackChain<Probe> = Chain::new();
    chain.link(recorder(1, Reaction::Proceed));
    chain.link(recorder(2, Reaction::Stop));
    chain.link(recorder(3, Reaction::Proceed));
    let mut request = Request::new();
    let mut response = Response::new();
    let status = chain.dispatch(&mut request, &mut response);
    assert!(matches!(status, Status::Unwind));
    assert_eq!(response.body, vec![1, ENTER_MARK, 2, ENTER_MARK, 1, EXIT_MARK]);
}

#[test]
fn error_switches_to_recovery_pass_with_payload() {
    let mut chain: StackChain<Probe> = Chain::new();
    chain.link(recorder(1, Reaction::Proceed));
    chain.link(recorder(2, Reaction::Fail(String::from("x"))));
    chain.link(recorder(3, Reaction::Proceed));
    let mut request = Request::new();
    let mut response = Response::new();
    let status = chain.dispatch(&mut request, &mut response);
    match status {
        Status::Error(payload) => {
            assert_eq!(payload, "x");
            assert_eq!(payload.show(), "x");
        },
        _ => panic!("expected the dispatch to report the error"),
    }
    assert_eq!(response.body, vec![1, ENTER_MARK, 2, ENTER_MARK, 1, ERROR_MARK]);
}

#[test]
fn duplicates_count_only_their_own_dispatch() {
    let mut template: StackChain<Probe> = Chain::new();
    template.link(Probe::CallCount { enter: 0, exit: 0 });
    let mut first = template.duplicate();
    let mut second = template.duplicate();

    let mut request = Request::new();
    let mut response = Response::new();
    let _ = first.dispatch(&mut request, &mut response);

    let observed = |chain: &StackChain<Probe>| match chain.handler_at(0) {
        Probe::CallCount { enter, exit } => (*enter, *exit),
        _ => panic!("expected the counting handler"),
    };
    assert_eq!(observed(&first), (1, 1));
    assert_eq!(observed(&second), (0, 0));
    assert_eq!(observed(&template), (0, 0));

    let mut request = Request::new();
    let mut response = Response::new();
    let _ = second.dispatch(&mut request, &mut response);
    assert_eq!(observed(&second), (1, 1));
    assert_eq!(observed(&first), (1, 1));
}

#[test]
fn exit_traversal_reports_continue() {
    let mut chain: StackChain<Probe> = Chain::new();
    chain.link(recorder(7, Reaction::Proceed));
    let mut request = Request::new();
    let mut response = Response::new();
    let _ = chain.chain_enter(&mut request, &mut response);
    let status = chain.chain_exit(&mut request, &mut response);
    assert!(matches!(status, Status::Continue));
}

#[test]
fn error_traversal_notifies_entered_handlers_in_reverse() {
    let mut chain = StackChain::from_vec(vec![
        recorder(1, Reaction::Proceed),
        recorder(2, Reaction::Proceed),
    ]);
    chain.set_status(ChainStatus::Errored(2));
    let mut request = Request::new();
    let mut response = Response::new();
    chain.chain_error(&mut request, &mut response, &String::from("boom"));
    assert_eq!(response.body, vec![2, ERROR_MARK, 1, ERROR_MARK]);
}

#[test]
fn call_counts_saturate_instead_of_wrapping() {
    let mut chain: StackChain<Probe> = Chain::new();
    chain.link(Probe::CallCount { enter: u64::MAX, exit: 0 });
    let mut request = Request::new();
    let mut response = Response::new();
    let _ = chain.chain_enter(&mut request, &mut response);
    match chain.handler_at(0) {
        Probe::CallCount { enter, .. } => assert_eq!(*enter, u64::MAX),
        _ => panic!("expected the counting handler"),
    }
}

#[test]
fn link_preserves_order_and_count() {
    let mut chain: StackChain<Probe> = Chain::new();
    assert_eq!(chain.len(), 0);
    chain.link(recorder(4, Reaction::Proceed));
    chain.link(Probe::Stopper);
    assert_eq!(chain.len(), 2);
    assert!(matches!(chain.handler_at(0), Probe::Recorder { id: 4, .. }));
    assert!(matches!(chain.handler_at(1), Probe::Stopper));
}
