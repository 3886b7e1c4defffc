//! A simple, generalized and nestable routing solution: it sends a request
//! to the route (or the router below) that handles it, and takes in what
//! comes back.
use crate::text::{debug_text, join3};
use std::fmt::Debug;
use vstd::prelude::*;
use vstd::std_specs::convert::FromSpecImpl;

verus! {

/// The error type of `anyhow`: any error at all, carried as it came.
#[verifier::external_type_specification]
#[verifier::external_body]
pub struct ExAnyhowError(anyhow::Error);

/// Why a router could not go on.
#[derive(Debug)]
pub enum RouterError {
    /// For when the router needs to exit.
    Exit(String),
    /// For when the router is in a state that is not ready to handle the
    /// given request.
    NotReady(String),
    /// For everything else.
    Unhandled(anyhow::Error),
}

/// What can happen to a router.
#[derive(Debug)]
pub enum RouterEvent<Routes> {
    Initialized,
    Start,
    Goto(Routes),
    DoneNavigating(Routes),
    Cancel(Routes),
    Error(RouterError),
    Exit(String),
}

/// What a running router is doing.
#[derive(Debug)]
pub enum RunningState<Routes> {
    Listening,
    Navigating(Routes),
}

/// The states of a router's life.
#[derive(Debug)]
pub enum RouterState<Routes> {
    Initializing,
    Idle,
    Running(RunningState<Routes>),
    Exiting(String),
}

/// An error that nobody has handled is the router's to report.
impl From<anyhow::Error> for RouterError {
    fn from(value: anyhow::Error) -> (err: Self) {
        RouterError::Unhandled(value)
    }
}

impl FromSpecImpl<anyhow::Error> for RouterError {
    open spec fn obeys_from_spec() -> bool {
        true
    }

    open spec fn from_spec(value: anyhow::Error) -> Self {
        RouterError::Unhandled(value)
    }
}

/// An error reaches the router as an event: a wish to exit as the event
/// that asks for the exit, every other error as the event that carries it.
impl<R> From<RouterError> for RouterEvent<R> {
    fn from(value: RouterError) -> (event: Self) {
        match value {
            RouterError::Exit(msg) => RouterEvent::Exit(msg),
            err => RouterEvent::Error(err),
        }
    }
}

impl<R> FromSpecImpl<RouterError> for RouterEvent<R> {
    open spec fn obeys_from_spec() -> bool {
        true
    }

    open spec fn from_spec(value: RouterError) -> Self {
        match value {
            RouterError::Exit(msg) => RouterEvent::Exit(msg),
            err => RouterEvent::Error(err),
        }
    }
}

/// The message for an event that a router in some state has no use for,
/// given the two as text.
pub open spec fn unexpected_text(event: Seq<char>, state: Seq<char>) -> Seq<char> {
    "Received "@ + event + ", however router is currently "@ + state
}

/// The message for a wish to cancel when nothing is under way, given the
/// event as text.
pub open spec fn nothing_to_cancel_text(event: Seq<char>) -> Seq<char> {
    "Received "@ + event + ", however there's no navigation to cancel."@
}

/// The message for a wish to go somewhere before the router was started.
pub open spec fn not_started_text() -> Seq<char> {
    "Router not yet started, please try again later."@
}

/// `err` says that the router was not ready, in the words for an event it
/// has no use for.
pub open spec fn is_unexpected(err: RouterError) -> bool {
    err matches RouterError::NotReady(msg) && exists|event: Seq<char>, state: Seq<char>|
        msg@ == unexpected_text(event, state)
}

/// `err` says that the router was not ready, in the words for a wish to
/// cancel when nothing is under way.
pub open spec fn is_nothing_to_cancel(err: RouterError) -> bool {
    err matches RouterError::NotReady(msg) && exists|event: Seq<char>|
        msg@ == nothing_to_cancel_text(event)
}

fn unexpected<Routes: Debug>(event: &RouterEvent<Routes>, state: &RouterState<Routes>) -> (err:
    RouterError)
    ensures
        is_unexpected(err),
{
    let event_text = debug_text(event);
    let state_text = debug_text(state);
    let mut msg = join3("Received ", event_text.as_str(), ", however router is currently ");
    msg.append(state_text.as_str());
    assert(msg@ == unexpected_text(event_text@, state_text@));
    RouterError::NotReady(msg)
}

fn nothing_to_cancel<Routes: Debug>(event: &RouterEvent<Routes>) -> (err: RouterError)
    ensures
        is_nothing_to_cancel(err),
{
    let event_text = debug_text(event);
    let msg = join3("Received ", event_text.as_str(), ", however there's no navigation to cancel.");
    assert(msg@ == nothing_to_cancel_text(event_text@));
    RouterError::NotReady(msg)
}

impl<Routes> RouterState<Routes> {
    /// Whether the event moves a router in this state on to a next state.
    pub open spec fn moves_on(self, event: RouterEvent<Routes>) -> bool {
        match self {
            Self::Initializing => event is Initialized,
            Self::Idle => event is Start || event is Exit,
            Self::Running(RunningState::Listening) => event is Goto || event is Exit,
            Self::Running(RunningState::Navigating(_)) => event is DoneNavigating,
            Self::Exiting(_) => false,
        }
    }

    /// The state that the event moves a router in this state on to.
    pub open spec fn next(self, event: RouterEvent<Routes>) -> Self {
        match (self, event) {
            (Self::Initializing, RouterEvent::Initialized) => Self::Idle,
            (Self::Idle, RouterEvent::Start) => Self::Running(RunningState::Listening),
            (Self::Idle, RouterEvent::Exit(msg)) => Self::Exiting(msg),
            (Self::Running(RunningState::Listening), RouterEvent::Goto(route)) => Self::Running(
                RunningState::Navigating(route),
            ),
            (Self::Running(RunningState::Listening), RouterEvent::Exit(msg)) => Self::Exiting(msg),
            (Self::Running(RunningState::Navigating(_)), RouterEvent::DoneNavigating(_)) => {
                Self::Running(RunningState::Listening)
            },
            _ => self,
        }
    }

    /// Whether `err` is the refusal that a router in this state gives to
    /// the event.
    pub open spec fn refuses_with(self, event: RouterEvent<Routes>, err: RouterError) -> bool {
        match (self, event) {
            (Self::Initializing, RouterEvent::Error(cause)) => err == cause,
            (Self::Idle, RouterEvent::Error(cause)) => err == cause,
            (Self::Idle, RouterEvent::Goto(_)) => err matches RouterError::NotReady(msg) && msg@
                == not_started_text(),
            (Self::Running(RunningState::Listening), RouterEvent::Cancel(_)) => {
                is_nothing_to_cancel(err)
            },
            _ => is_unexpected(err),
        }
    }

    /// Whether the router is running, listening or on its way.
    pub open spec fn is_running(self) -> bool {
        self is Running
    }
}

impl<Routes: Copy + Debug> RouterState<Routes> {
    /// The state that follows on `event`, or why the event is refused.
    ///
    /// A router that is on its way to a route cannot be asked to cancel
    /// yet.
    pub fn next_from_event(self, event: RouterEvent<Routes>) -> (r: Result<Self, RouterError>)
        requires
            !(self matches RouterState::Running(RunningState::Navigating(_)) && event is Cancel),
        ensures
            self.moves_on(event) ==> r == Ok::<Self, RouterError>(self.next(event)),
            !self.moves_on(event) ==> r is Err && self.refuses_with(event, r->Err_0),
    {
        match self {
            Self::Initializing => match event {
                RouterEvent::Initialized => Ok(Self::Idle),
                RouterEvent::Error(err) => Err(err),
                _ => Err(unexpected(&event, &self)),
            },
            Self::Idle => match event {
                RouterEvent::Start => Ok(Self::Running(RunningState::Listening)),
                RouterEvent::Exit(msg) => Ok(Self::Exiting(msg)),
                RouterEvent::Error(err) => Err(err),
                RouterEvent::Goto(_) => Err(
                    RouterError::NotReady(
                        String::from_str("Router not yet started, please try again later."),
                    ),
                ),
                _ => Err(unexpected(&event, &self)),
            },
            Self::Running(RunningState::Listening) => match event {
                RouterEvent::Goto(route) => Ok(Self::Running(RunningState::Navigating(route))),
                RouterEvent::Exit(msg) => Ok(Self::Exiting(msg)),
                RouterEvent::Cancel(_) => Err(nothing_to_cancel(&event)),
                _ => Err(unexpected(&event, &self)),
            },
            Self::Running(RunningState::Navigating(_going_to)) => match event {
                RouterEvent::DoneNavigating(_) => Ok(Self::Running(RunningState::Listening)),
                _ => Err(unexpected(&event, &self)),
            },
            Self::Exiting(_) => Err(unexpected(&event, &self)),
        }
    }
}

/// Anything that can say where a path leads.
pub trait Matcher<Routes = Self> {
    /// The events that a match of this path can give: any event, unless
    /// the route says more.
    open spec fn may_give(&self, event: RouterEvent<Routes>) -> bool {
        true
    }

    /// Matches the path: the event that follows, or what went wrong.
    fn match_path(&self) -> (r: Result<RouterEvent<Routes>, anyhow::Error>)
        ensures
            r matches Ok(event) ==> <Self as Matcher<Routes>>::may_give(self, event),
    ;
}

/// Whether `outcome` is what a match of `route` answers.
pub open spec fn answers<Routes: Matcher<Routes>>(
    route: Routes,
    outcome: Result<RouterEvent<Routes>, anyhow::Error>,
) -> bool {
    call_ensures(<Routes as Matcher<Routes>>::match_path, (&route,), outcome)
}

/// `to` can be reached from `from` in `steps` moves, each of them to where
/// the route before it answered to go.
pub open spec fn reaches_in<Routes: Matcher<Routes>>(from: Routes, to: Routes, steps: nat) -> bool
    decreases steps,
{
    if steps == 0 {
        from == to
    } else {
        exists|via: Routes|
            #![trigger answers(via, Ok(RouterEvent::Goto(to)))]
            reaches_in(from, via, (steps - 1) as nat) && answers(via, Ok(RouterEvent::Goto(to)))
    }
}

/// `to` can be reached from `from`.
pub open spec fn reaches<Routes: Matcher<Routes>>(from: Routes, to: Routes) -> bool {
    exists|steps: nat| reaches_in(from, to, steps)
}

/// Whether a running router goes on after this outcome of a match: it
/// does where the route says where to go, or asks for the exit.
pub open spec fn goes_on<Routes>(outcome: Result<RouterEvent<Routes>, anyhow::Error>) -> bool {
    outcome matches Ok(event) && (event is Goto || event is Exit)
}

/// Whether `err` is what a running router stops with on this outcome of a
/// match: the error that kept the route from matching, the error that the
/// route gave, or, for an event that a running router has no answer to,
/// the refusal in the words for such an event.
pub open spec fn stops_with<Routes>(
    outcome: Result<RouterEvent<Routes>, anyhow::Error>,
    err: RouterError,
) -> bool {
    match outcome {
        Err(cause) => err == RouterError::Unhandled(cause),
        Ok(RouterEvent::Error(given)) => err == given,
        Ok(RouterEvent::Goto(_)) => false,
        Ok(RouterEvent::Exit(_)) => false,
        Ok(_) => is_unexpected(err),
    }
}

/// Whether a run can stop with `err` at `route`: the route answers
/// something that a running router stops with `err` on.
pub open spec fn fails_at<Routes: Matcher<Routes>>(route: Routes, err: RouterError) -> bool {
    exists|outcome: Result<RouterEvent<Routes>, anyhow::Error>|
        #![trigger answers(route, outcome)]
        answers(route, outcome) && stops_with(outcome, err)
}

/// The message of a run that was given up.
pub open spec fn still_running_text() -> Seq<char> {
    "Router is still running after more moves than it can count."@
}

/// A router: where it is, and what state it is in.
pub struct Router<Routes: Copy + Matcher> {
    location: Routes,
    state: RouterState<Routes>,
}

impl<Routes: Copy + Matcher> Router<Routes> {
    /// Where the router is.
    pub closed spec fn spec_location(&self) -> Routes {
        self.location
    }

    /// The state the router is in.
    pub closed spec fn spec_state(&self) -> RouterState<Routes> {
        self.state
    }

    /// A router at `initial_path` that has yet to be set up.
    pub fn new(initial_path: Routes) -> (router: Self)
        ensures
            router.spec_location() == initial_path,
            router.spec_state() == RouterState::<Routes>::Initializing,
    {
        Self { location: initial_path, state: RouterState::Initializing }
    }

    /// Where the router is.
    #[verifier::when_used_as_spec(spec_location)]
    pub fn location(&self) -> (at: Routes)
        ensures
            at == self.spec_location(),
    {
        self.location
    }

    /// The state the router is in.
    pub fn state(&self) -> (state: &RouterState<Routes>)
        ensures
            *state == self.spec_state(),
    {
        &self.state
    }

    /// Asks the route the router is at where to go from here, and hands on
    /// what the route answers. The router itself stays as it is.
    pub fn navigate(&mut self) -> (r: Result<RouterEvent<Routes>, anyhow::Error>)
        ensures
            *final(self) == *old(self),
            call_ensures(
                <Routes as Matcher<Routes>>::match_path,
                (&old(self).spec_location(),),
                r,
            ),
            r matches Ok(event) ==> old(self).spec_location().may_give(event),
    {
        self.match_path()
    }

    /// Whether the router is running.
    pub fn is_running(&self) -> (running: bool)
        ensures
            running == self.spec_state().is_running(),
    {
        if let RouterState::Running(_) = self.state {
            true
        } else {
            false
        }
    }

    /// Takes in an event: goes where it says, or gets ready to exit. The
    /// router has no answer yet to a cancellation or an error, and none to
    /// an event that only tells of its own progress.
    pub fn dispatch(&mut self, event: RouterEvent<Routes>)
        requires
            event is Goto || event is Exit,
        ensures
            event matches RouterEvent::Goto(route) ==> final(self).spec_location() == route
                && final(self).spec_state() == old(self).spec_state(),
            event matches RouterEvent::Exit(msg) ==> final(self).spec_location() == old(
                self,
            ).spec_location() && final(self).spec_state() == RouterState::<Routes>::Exiting(msg),
    {
        match event {
            RouterEvent::Goto(route) => self.location = route,
            RouterEvent::Exit(msg) => {
                let _ = self.exit(msg);
            },
            _ => {},
        }
    }

    /// Takes in what a match of the route the router is at came to.
    ///
    /// Where the route says where to go, the router goes there; where it
    /// asks for the exit, the router gets ready to exit. On anything else
    /// the router stays as it is and says why it cannot go on: with the
    /// error that kept the route from matching, with the error that the
    /// route gave, or with `NotReady` for an event it has no answer to.
    pub fn advance(&mut self, outcome: Result<RouterEvent<Routes>, anyhow::Error>) -> (r: Result<
        (),
        RouterError,
    >) where Routes: Debug
        ensures
            goes_on(outcome) <==> r is Ok,
            outcome matches Ok(RouterEvent::Goto(route)) ==> final(self).spec_location() == route
                && final(self).spec_state() == old(self).spec_state(),
            outcome matches Ok(RouterEvent::Exit(msg)) ==> final(self).spec_location() == old(
                self,
            ).spec_location() && final(self).spec_state() == RouterState::<Routes>::Exiting(msg),
            !goes_on(outcome) ==> *final(self) == *old(self) && r is Err && stops_with(
                outcome,
                r->Err_0,
            ),
    {
        let event = match outcome {
            Ok(event) => event,
            Err(err) => RouterEvent::from(RouterError::from(err)),
        };
        match event {
            RouterEvent::Goto(route) => {
                self.dispatch(RouterEvent::Goto(route));
                Ok(())
            },
            RouterEvent::Exit(msg) => {
                self.dispatch(RouterEvent::Exit(msg));
                Ok(())
            },
            RouterEvent::Error(err) => Err(err),
            other => Err(unexpected(&other, &self.state)),
        }
    }

    /// Gets the router ready to exit, with the reason why.
    pub fn exit(&mut self, msg: String) -> (r: Result<(), RouterError>)
        ensures
            r is Ok,
            final(self).spec_location() == old(self).spec_location(),
            final(self).spec_state() == RouterState::<Routes>::Exiting(msg),
    {
        self.state = RouterState::Exiting(msg);
        Ok(())
    }
}

impl<Routes: Copy + Matcher + Debug> Router<Routes> {
    /// Runs the router: from where it is, it goes where each route sends
    /// it, until a route asks for the exit, and returns the route it is at
    /// then.
    ///
    /// The run stops early at the first route that cannot be matched, that
    /// gives an error, or that gives an event which a running router has no
    /// answer to, with what `advance` says of it. It is given up, with
    /// `NotReady`, only after `usize::MAX` moves.
    pub fn run(self) -> (r: Result<Routes, RouterError>)
        ensures
            r matches Ok(route) ==> reaches(self.spec_location(), route) && exists|msg: String|
                answers(route, Ok(RouterEvent::Exit(msg))),
            r matches Err(err) ==> (err matches RouterError::NotReady(msg) && msg@
                == still_running_text() && exists|route: Routes|
                reaches_in(self.spec_location(), route, usize::MAX as nat)) || exists|
                route: Routes,
            |
                #![trigger fails_at(route, err)]
                reaches(self.spec_location(), route) && fails_at(route, err),
    {
        let ghost start = self.location;
        let ghost mut moves: nat = 0;
        let mut router = self;
        router.state = RouterState::Running(RunningState::Listening);
        let mut steps: usize = 0;
        while router.is_running()
            invariant
                start == self.spec_location(),
                router.state.is_running() ==> moves == steps,
                reaches_in(start, router.location, moves),
                !router.state.is_running() ==> exists|msg: String|
                    answers(router.location, Ok(RouterEvent::Exit(msg))),
            decreases usize::MAX - steps,
        {
            if steps == usize::MAX {
                assert(reaches_in(start, router.location, usize::MAX as nat));
                return Err(
                    RouterError::NotReady(
                        String::from_str("Router is still running after more moves than it can count."),
                    ),
                );
            }
            steps += 1;
            let ghost before = router.location;
            let outcome = router.match_path();
            let ghost answered = outcome;
            assert(answers(before, answered));
            match router.advance(outcome) {
                Ok(()) => {
                    proof {
                        if let Ok(RouterEvent::Goto(route)) = answered {
                            moves = moves + 1;
                            assert(reaches_in(start, before, (moves - 1) as nat));
                            assert(reaches_in(start, route, moves));
                        }
                    }
                },
                Err(err) => {
                    assert(reaches(start, before));
                    assert(fails_at(before, err));
                    return Err(err);
                },
            }
        }
        Ok(router.location)
    }
}

/// A router matches as the route it is at.
impl<Routes: Copy + Matcher> Matcher<Routes> for Router<Routes> {
    open spec fn may_give(&self, event: RouterEvent<Routes>) -> bool {
        self.spec_location().may_give(event)
    }

    /// Hands on what the route the router is at answers.
    fn match_path(&self) -> (r: Result<RouterEvent<Routes>, anyhow::Error>)
        ensures
            call_ensures(
                <Routes as Matcher<Routes>>::match_path,
                (&self.spec_location(),),
                r,
            ),
    {
        self.location.match_path()
    }
}

} // verus!
