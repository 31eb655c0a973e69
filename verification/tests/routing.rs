use rest_server::routing::{
    Action, AnyHandler, Controller, ControllerError, ControllerKind, ControllerResult, Router,
};

fn table() -> Router<u8, u8> {
    Router::init(vec![
        Controller::new_string_controller("/home".to_string(), "GET".to_string(), 0, 0),
        Controller::new_int_controller("/count".to_string(), "GET".to_string(), 1, 1),
        Controller::custom_controller("/home".to_string(), "GET".to_string(), 2u8, 2, |h: AnyHandler<u8>| h.inner),
        Controller::custom_post_controller("/post".to_string(), "POST".to_string(), 3u8, 3, |h: AnyHandler<u8>| h.inner),
        Controller::custom_controller("/home".to_string(), "POST".to_string(), 4u8, 4, |h: AnyHandler<u8>| h.inner),
    ])
}

#[test]
fn targets_are_the_matching_routes_in_order() {
    let router = table();
    assert_eq!(router.targets(&"/home".to_string(), &"GET".to_string()), vec![0, 2]);
    assert_eq!(router.targets(&"/post".to_string(), &"POST".to_string()), vec![3]);
    assert_eq!(router.targets(&"/post".to_string(), &"GET".to_string()), Vec::<usize>::new());
    assert_eq!(router.targets(&"/nowhere".to_string(), &"GET".to_string()), Vec::<usize>::new());
}

#[test]
fn init_keeps_the_controllers_in_order() {
    let router = table();
    assert_eq!(router.routes.len(), 5);
    assert!(router.routes[3].kind() == ControllerKind::CustomPost);
    assert_eq!(router.routes[1].path(), "/count");
    assert_eq!(router.routes[3].method(), "POST");
}

#[test]
fn constructors_keep_their_parts() {
    match Controller::new_string_controller("/a".to_string(), "GET".to_string(), 10u8, 20u8) {
        Controller::StringController(c) => {
            assert_eq!(c.path, "/a");
            assert_eq!(c.method, "GET");
            assert_eq!(c.req_handler, 10);
            assert_eq!(c.handler, 20);
        }
        _ => panic!("wrong sort of controller"),
    }
}

#[test]
fn matches_needs_path_and_method() {
    let c: Controller<u8, u8> = Controller::new_int_controller("/n".to_string(), "GET".to_string(), 0, 0);
    assert!(c.matches(&"/n".to_string(), &"GET".to_string()));
    assert!(!c.matches(&"/n".to_string(), &"POST".to_string()));
    assert!(!c.matches(&"/m".to_string(), &"GET".to_string()));
}

#[test]
fn only_post_controllers_take_the_request() {
    let router = table();
    let takes: Vec<bool> = router.routes.iter().map(|c| c.takes_request()).collect();
    assert_eq!(takes, vec![false, false, false, true, false]);
}

#[test]
fn string_controller_delivers_strings_only() {
    let c: Controller<u8, u8> = Controller::new_string_controller("/".to_string(), "GET".to_string(), 0, 0);
    match c.decide::<u64>(Ok(ControllerResult::StringResult("hi".to_string()))) {
        Action::DeliverString(s) => assert_eq!(s, "hi"),
        _ => panic!("expected a string"),
    }
    assert!(matches!(c.decide::<u64>(Ok(ControllerResult::IntResult(3))), Action::Unimplemented));
    assert!(matches!(c.decide::<u64>(Ok(ControllerResult::AnyResult(3))), Action::Unimplemented));
}

#[test]
fn int_controller_delivers_integers_only() {
    let c: Controller<u8, u8> = Controller::new_int_controller("/".to_string(), "GET".to_string(), 0, 0);
    assert!(matches!(c.decide::<u64>(Ok(ControllerResult::IntResult(-4))), Action::DeliverInt(-4)));
    assert!(matches!(
        c.decide::<u64>(Ok(ControllerResult::StringResult("x".to_string()))),
        Action::Unimplemented
    ));
}

#[test]
fn custom_controllers_deliver_payloads_and_skip_the_rest() {
    let c: Controller<u8, u8> = Controller::custom_controller("/".to_string(), "GET".to_string(), 0u8, 0, |h: AnyHandler<u8>| h.inner);
    let p: Controller<u8, u8> = Controller::custom_post_controller("/".to_string(), "POST".to_string(), 0u8, 0, |h: AnyHandler<u8>| h.inner);
    assert!(matches!(c.decide::<u64>(Ok(ControllerResult::AnyResult(9))), Action::DeliverAny(9)));
    assert!(matches!(p.decide::<u64>(Ok(ControllerResult::AnyResult(8))), Action::DeliverAny(8)));
    assert!(matches!(c.decide::<u64>(Ok(ControllerResult::IntResult(1))), Action::EmptyLine));
    assert!(matches!(
        p.decide::<u64>(Ok(ControllerResult::StringResult("s".to_string()))),
        Action::EmptyLine
    ));
}

#[test]
fn failures_are_reported() {
    let router = table();
    for c in router.routes.iter() {
        assert!(matches!(c.decide::<u64>(Err(ControllerError {})), Action::ReportError(_)));
    }
}

#[test]
fn wrap_any_wraps_payloads_and_keeps_errors() {
    assert!(matches!(ControllerResult::wrap_any(Ok::<u8, ControllerError>(5)), Ok(ControllerResult::AnyResult(5))));
    assert!(ControllerResult::wrap_any(Err::<u8, ControllerError>(ControllerError {})).is_err());
}

#[test]
fn handlers_are_handed_out_as_registered() {
    let router = table();
    assert_eq!(*router.routes[2].req_handler(), 2);
    assert_eq!(*router.routes[4].handler(), 4);
}

#[test]
fn any_handler_wraps_each_outcome() {
    let ok = AnyHandler { inner: || Ok::<u8, ControllerError>(7) };
    assert!(matches!(ok.call(), Ok(ControllerResult::AnyResult(7))));
    let failing = AnyHandler { inner: || Err::<u8, ControllerError>(ControllerError {}) };
    assert!(failing.call().is_err());
}

#[test]
fn any_handler_hands_on_its_input() {
    let doubled = AnyHandler { inner: |v: u32| Ok::<u32, ControllerError>(v * 2) };
    assert!(matches!(doubled.call_with(21), Ok(ControllerResult::AnyResult(42))));
    let failing = AnyHandler { inner: |_v: u32| Err::<u32, ControllerError>(ControllerError {}) };
    assert!(failing.call_with(1).is_err());
}

#[test]
fn custom_controller_keeps_the_wrapped_handler() {
    let c: Controller<Box<dyn Fn() -> Result<ControllerResult<u8>, ControllerError>>, u8> =
        Controller::custom_controller(
            "/c".to_string(),
            "GET".to_string(),
            || Ok::<u8, ControllerError>(3),
            0,
            |h| Box::new(move || h.call()) as Box<dyn Fn() -> Result<ControllerResult<u8>, ControllerError>>,
        );
    assert!(matches!((c.req_handler())(), Ok(ControllerResult::AnyResult(3))));
    assert!(c.kind() == ControllerKind::Custom);
}
