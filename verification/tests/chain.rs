use iron::chain::{Chain, ChainStatus};
use iron::probe::Probe;
use iron::request::Request;
use iron::response::Response;
use iron::stackchain::StackChain;

fn counts(chain: &StackChain<Probe>, i: usize) -> (u64, u64) {
    match chain.handler_at(i) {
        Probe::CallCount { enter, exit } => (*enter, *exit),
        _ => panic!("expected a counting handler at position {}", i),
    }
}

#[test]
fn calls_middleware_enter() {
    let mut testchain: StackChain<Probe> = Chain::new();
    testchain.link(Probe::CallCount { enter: 0, exit: 0 });
    testchain.link(Probe::Stopper);
    let mut request = Request::new();
    let mut response = Response::new();
    let _ = testchain.dispatch(&mut request, &mut response);
    assert_eq!(counts(&testchain, 0).0, 1);
}

#[test]
fn calls_middleware_exit() {
    let mut testchain: StackChain<Probe> = Chain::new();
    testchain.link(Probe::CallCount { enter: 0, exit: 0 });
    testchain.link(Probe::Stopper);
    let mut request = Request::new();
    let mut response = Response::new();
    let _ = testchain.dispatch(&mut request, &mut response);
    assert_eq!(counts(&testchain, 0).1, 1);
}

#[test]
fn calls_all_middleware_enter_exit() {
    let mut testchain: StackChain<Probe> = Chain::new();
    for _ in 0..10 {
        testchain.link(Probe::CallCount { enter: 0, exit: 0 });
    }
    testchain.link(Probe::Stopper);
    let mut request = Request::new();
    let mut response = Response::new();
    let _ = testchain.dispatch(&mut request, &mut response);
    for i in 0..10 {
        let (enter, exit) = counts(&testchain, i);
        assert_eq!(enter, 1);
        assert_eq!(exit, 1);
    }
}

#[test]
fn chain_calls_middleware_enter() {
    let mut testchain: StackChain<Probe> = Chain::new();
    testchain.link(Probe::CallCount { enter: 0, exit: 0 });
    testchain.link(Probe::Stopper);
    let mut request = Request::new();
    let mut response = Response::new();
    let _ = testchain.chain_enter(&mut request, &mut response);
    assert_eq!(counts(&testchain, 0).0, 1);
}

#[test]
fn doesnt_call_middleware_exit() {
    let mut testchain: StackChain<Probe> = Chain::new();
    testchain.link(Probe::CallCount { enter: 0, exit: 0 });
    testchain.link(Probe::Stopper);
    let mut request = Request::new();
    let mut response = Response::new();
    let _ = testchain.chain_enter(&mut request, &mut response);
    assert_eq!(counts(&testchain, 0).1, 0);
}

#[test]
fn chain_calls_middleware_exit() {
    let mut testchain: StackChain<Probe> = Chain::new();
    testchain.link(Probe::CallCount { enter: 0, exit: 0 });
    testchain.link(Probe::Stopper);
    let mut request = Request::new();
    let mut response = Response::new();
    let _ = testchain.chain_enter(&mut request, &mut response);
    let _ = testchain.chain_exit(&mut request, &mut response);
    assert_eq!(counts(&testchain, 0).1, 1);
}

#[test]
fn doesnt_call_middleware_enter() {
    let mut testchain: StackChain<Probe> = Chain::new();
    testchain.link(Probe::CallCount { enter: 0, exit: 0 });
    testchain.set_status(ChainStatus::Unwound(1));
    let mut request = Request::new();
    let mut response = Response::new();
    let _ = testchain.chain_exit(&mut request, &mut response);
    assert_eq!(counts(&testchain, 0).0, 0);
}
