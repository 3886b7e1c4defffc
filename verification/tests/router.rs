use res_gen::router::{
    Matcher, Router, RouterError, RouterEvent, RouterState, RunningState,
};

#[derive(Copy, Clone, Debug, PartialEq)]
enum RoutesTable {
    Somewhere,
    AfterSomewhere,
    GoingDeeper(NestedRoutes),
    Exit,
}

impl Matcher for RoutesTable {
    fn match_path(&self) -> anyhow::Result<RouterEvent<RoutesTable>> {
        match self {
            Self::Somewhere => Ok(RouterEvent::Goto(Self::AfterSomewhere)),
            Self::AfterSomewhere => {
                Ok(RouterEvent::Goto(Self::GoingDeeper(NestedRoutes::WentDeep)))
            }
            Self::GoingDeeper(deeper) => deeper.match_path(),
            Self::Exit => Ok(RouterEvent::Exit("Time to quit...".into())),
        }
    }
}

#[derive(Copy, Clone, Debug, PartialEq)]
enum NestedRoutes {
    WentDeep,
}

impl Matcher<RoutesTable> for NestedRoutes {
    fn match_path(&self) -> anyhow::Result<RouterEvent<RoutesTable>> {
        Ok(RouterEvent::Goto(RoutesTable::Exit))
    }
}

#[test]
fn router_processing_loop() {
    let router = Router::new(RoutesTable::Somewhere);

    match router.run() {
        Ok(RoutesTable::Exit) => (),
        Ok(r) => panic!("Ended as some route {r:?}, expected RoutesTable::Exit"),
        Err(e) => panic!("Ended in some error {e:?}"),
    }
}

#[test]
fn navigating_step_by_step_leads_to_the_exit() {
    let mut router = Router::new(RoutesTable::Somewhere);
    assert!(matches!(router.state(), RouterState::Initializing));
    assert!(!router.is_running());

    let actual = router.navigate().unwrap();
    match actual {
        RouterEvent::Goto(RoutesTable::AfterSomewhere) => router.dispatch(actual),
        _ => panic!("first navigation gave {actual:?}"),
    }
    assert_eq!(router.location(), RoutesTable::AfterSomewhere);

    let actual = router.navigate().unwrap();
    match actual {
        RouterEvent::Goto(RoutesTable::GoingDeeper(NestedRoutes::WentDeep)) => {
            router.dispatch(actual)
        }
        _ => panic!("second navigation gave {actual:?}"),
    }

    let actual = router.navigate().unwrap();
    match actual {
        RouterEvent::Goto(RoutesTable::Exit) => router.dispatch(actual),
        _ => panic!("third navigation gave {actual:?}"),
    }
    assert_eq!(router.location(), RoutesTable::Exit);
    // going somewhere leaves the state as it was
    assert!(matches!(router.state(), RouterState::Initializing));

    let actual = router.navigate().unwrap();
    match actual {
        RouterEvent::Exit(_) => router.dispatch(actual),
        _ => panic!("last navigation gave {actual:?}"),
    }
    match router.state() {
        RouterState::Exiting(msg) => assert_eq!(msg, "Time to quit..."),
        other => panic!("Router state should have ended as Exiting, instead got {other:?}"),
    }
    assert_eq!(router.location(), RoutesTable::Exit);
}

#[test]
fn exit_sets_the_state_and_keeps_the_place() {
    let mut router = Router::new(RoutesTable::AfterSomewhere);
    assert!(router.exit("bye".to_string()).is_ok());
    assert!(matches!(router.state(), RouterState::Exiting(msg) if msg == "bye"));
    assert_eq!(router.location(), RoutesTable::AfterSomewhere);
    assert!(!router.is_running());
}

#[derive(Copy, Clone, Debug, PartialEq)]
enum Broken {
    Start,
    Fails,
    Reports,
    Confused,
}

impl Matcher for Broken {
    fn match_path(&self) -> anyhow::Result<RouterEvent<Broken>> {
        match self {
            Self::Start => Ok(RouterEvent::Goto(Self::Fails)),
            Self::Fails => Err(anyhow::Error::msg("no such path")),
            Self::Reports => Ok(RouterEvent::Error(RouterError::Exit("told to".into()))),
            Self::Confused => Ok(RouterEvent::DoneNavigating(Self::Start)),
        }
    }
}

#[test]
fn a_run_ends_with_the_error_of_a_route() {
    match Router::new(Broken::Start).run() {
        Err(RouterError::Unhandled(err)) => assert_eq!(err.to_string(), "no such path"),
        other => panic!("expected the route's error, got {other:?}"),
    }
    match Router::new(Broken::Reports).run() {
        Err(RouterError::Exit(msg)) => assert_eq!(msg, "told to"),
        other => panic!("expected the reported error, got {other:?}"),
    }
    match Router::new(Broken::Confused).run() {
        Err(RouterError::NotReady(msg)) => assert_eq!(
            msg,
            "Received DoneNavigating(Start), however router is currently Running(Listening)"
        ),
        other => panic!("expected a refusal, got {other:?}"),
    }
}

#[test]
fn errors_become_events() {
    let event: RouterEvent<Broken> = RouterEvent::from(RouterError::Exit("done".into()));
    assert!(matches!(event, RouterEvent::Exit(msg) if msg == "done"));
    let event: RouterEvent<Broken> = RouterEvent::from(RouterError::NotReady("wait".into()));
    assert!(matches!(event, RouterEvent::Error(RouterError::NotReady(msg)) if msg == "wait"));
    let err = RouterError::from(anyhow::Error::msg("boom"));
    assert!(matches!(&err, RouterError::Unhandled(e) if e.to_string() == "boom"));
    let event: RouterEvent<Broken> = RouterEvent::from(err);
    assert!(matches!(event, RouterEvent::Error(RouterError::Unhandled(_))));
}

type State = RouterState<Broken>;
type Event = RouterEvent<Broken>;

#[test]
fn the_state_machine_moves_on() {
    assert!(matches!(
        State::Initializing.next_from_event(Event::Initialized),
        Ok(State::Idle)
    ));
    assert!(matches!(
        State::Idle.next_from_event(Event::Start),
        Ok(State::Running(RunningState::Listening))
    ));
    assert!(matches!(
        State::Idle.next_from_event(Event::Exit("early".into())),
        Ok(State::Exiting(msg)) if msg == "early"
    ));
    assert!(matches!(
        State::Running(RunningState::Listening).next_from_event(Event::Goto(Broken::Fails)),
        Ok(State::Running(RunningState::Navigating(Broken::Fails)))
    ));
    assert!(matches!(
        State::Running(RunningState::Listening).next_from_event(Event::Exit("late".into())),
        Ok(State::Exiting(msg)) if msg == "late"
    ));
    assert!(matches!(
        State::Running(RunningState::Navigating(Broken::Fails))
            .next_from_event(Event::DoneNavigating(Broken::Fails)),
        Ok(State::Running(RunningState::Listening))
    ));
}

fn refusal(state: State, event: Event) -> String {
    match state.next_from_event(event) {
        Err(RouterError::NotReady(msg)) => msg,
        other => panic!("expected a refusal, got {other:?}"),
    }
}

#[test]
fn the_state_machine_refuses_what_does_not_fit() {
    assert_eq!(
        refusal(State::Initializing, Event::Start),
        "Received Start, however router is currently Initializing"
    );
    assert_eq!(
        refusal(State::Idle, Event::Goto(Broken::Start)),
        "Router not yet started, please try again later."
    );
    assert_eq!(
        refusal(State::Idle, Event::Initialized),
        "Received Initialized, however router is currently Idle"
    );
    assert_eq!(
        refusal(State::Running(RunningState::Listening), Event::Cancel(Broken::Start)),
        "Received Cancel(Start), however there's no navigation to cancel."
    );
    assert_eq!(
        refusal(State::Running(RunningState::Listening), Event::Start),
        "Received Start, however router is currently Running(Listening)"
    );
    assert_eq!(
        refusal(
            State::Running(RunningState::Navigating(Broken::Fails)),
            Event::Goto(Broken::Start)
        ),
        "Received Goto(Start), however router is currently Running(Navigating(Fails))"
    );
    assert_eq!(
        refusal(State::Exiting("over".into()), Event::Start),
        "Received Start, however router is currently Exiting(\"over\")"
    );
}

#[test]
fn the_state_machine_hands_errors_back_before_it_runs() {
    assert!(matches!(
        State::Initializing.next_from_event(Event::Error(RouterError::Exit("x".into()))),
        Err(RouterError::Exit(msg)) if msg == "x"
    ));
    assert!(matches!(
        State::Idle.next_from_event(Event::Error(RouterError::NotReady("y".into()))),
        Err(RouterError::NotReady(msg)) if msg == "y"
    ));
    // a running router treats an error like any event it has no use for
    let msg = refusal(
        State::Running(RunningState::Listening),
        Event::Error(RouterError::Exit("z".into())),
    );
    assert_eq!(
        msg,
        "Received Error(Exit(\"z\")), however router is currently Running(Listening)"
    );
}

#[test]
fn advancing_takes_in_what_a_match_came_to() {
    let mut router = Router::new(Broken::Start);

    // where to go
    assert!(router.advance(Ok(RouterEvent::Goto(Broken::Reports))).is_ok());
    assert_eq!(router.location(), Broken::Reports);
    assert!(matches!(router.state(), RouterState::Initializing));

    // an error that the route gave
    let out = router.advance(Ok(RouterEvent::Error(RouterError::NotReady("later".into()))));
    assert!(matches!(out, Err(RouterError::NotReady(msg)) if msg == "later"));
    assert_eq!(router.location(), Broken::Reports);

    // a route that could not be matched
    let out = router.advance(Err(anyhow::Error::msg("lost")));
    assert!(matches!(out, Err(RouterError::Unhandled(err)) if err.to_string() == "lost"));
    assert_eq!(router.location(), Broken::Reports);

    // an event that the router has no answer to
    let out = router.advance(Ok(RouterEvent::Cancel(Broken::Start)));
    match out {
        Err(RouterError::NotReady(msg)) => assert_eq!(
            msg,
            "Received Cancel(Start), however router is currently Initializing"
        ),
        other => panic!("expected a refusal, got {other:?}"),
    }
    assert_eq!(router.location(), Broken::Reports);
    assert!(matches!(router.state(), RouterState::Initializing));

    // the exit
    assert!(router.advance(Ok(RouterEvent::Exit("done".into()))).is_ok());
    assert!(matches!(router.state(), RouterState::Exiting(msg) if msg == "done"));
    assert_eq!(router.location(), Broken::Reports);
}

#[test]
fn navigating_hands_on_what_the_route_answers() {
    let mut router = Router::new(Broken::Fails);
    match router.navigate() {
        Err(err) => assert_eq!(err.to_string(), "no such path"),
        Ok(event) => panic!("expected the route's error, got {event:?}"),
    }
    assert_eq!(router.location(), Broken::Fails);
    let mut router = Router::new(Broken::Confused);
    assert!(matches!(
        router.navigate(),
        Ok(RouterEvent::DoneNavigating(Broken::Start))
    ));
    assert!(matches!(
        router.match_path(),
        Ok(RouterEvent::DoneNavigating(Broken::Start))
    ));
}
