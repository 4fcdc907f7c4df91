use vstd::prelude::*;
use crate::clients::{self, CreateUserCodesResponse, GetUserAuthorizedResponse, LoginResponse};

verus! {

/// Seconds added to the polling interval each time the provider asks the
/// client to slow down.
pub const SLOW_DOWN_STEP_SECS: u64 = 5;

/// Where the device authorization stands.
pub enum DeviceFlowState {
    /// Device and user codes were asked for at `started_at` (milliseconds).
    Requested { started_at: i64 },
    /// Waiting for the human; the code is valid until `deadline` (milliseconds).
    Polling { device_code: String, deadline: i128, interval: u64 },
    /// The provider authorized the device; the backend login is under way.
    LoggingIn,
    /// The backend issued `token`, which is to be stored locally.
    Authorized { token: String },
    /// The device code expired first.
    Expired,
    /// The provider refused, with the given error code.
    Denied { error: String },
    /// The user stopped the flow.
    Aborted,
    /// A call failed, or an answer came that nothing was waiting for.
    Failed,
}

/// What the driver of the flow observed.
pub enum DeviceFlowEvent {
    CodesIssued(CreateUserCodesResponse),
    CodesFailed(clients::Error),
    /// A wait asked for by the flow has ended.
    Woke,
    PollAnswered(Result<GetUserAuthorizedResponse, clients::Error>),
    LoggedIn(Result<LoginResponse, clients::Error>),
    Abort,
}

/// What the driver is to do next.
pub enum DeviceFlowAction {
    /// Show the code and where to enter it, then wait `wait_ms` milliseconds.
    Present { user_code: String, verification_uri: String, wait_ms: u64 },
    /// Wait `ms` milliseconds.
    Wait { ms: u64 },
    /// Ask the provider whether the device is authorized yet.
    Poll { device_code: String },
    /// Exchange the provider's token for a session token at the backend.
    Login { access_token: String },
    /// Store the session token in the local configuration.
    PersistToken { token: String },
    /// Nothing more: the flow is over.
    Stop,
}

pub ghost enum FlowView {
    Requested { started_at: i64 },
    Polling { device_code: Seq<char>, deadline: int, interval: u64 },
    LoggingIn,
    Authorized { token: Seq<char> },
    Expired,
    Denied { error: Seq<char> },
    Aborted,
    Failed,
}

pub ghost enum InputView {
    CodesIssued { device_code: Seq<char>, user_code: Seq<char>, verification_uri: Seq<char>, expires_in: i64, interval: u64 },
    CodesFailed,
    Woke,
    PollSuccess { access_token: Seq<char> },
    PollError { error: Seq<char> },
    PollFailed,
    LoginOk { token: Seq<char> },
    LoginFailed,
    Abort,
}

pub ghost enum ActionView {
    Present { user_code: Seq<char>, verification_uri: Seq<char>, wait_ms: u64 },
    Wait { ms: u64 },
    Poll { device_code: Seq<char> },
    Login { access_token: Seq<char> },
    PersistToken { token: Seq<char> },
    Stop,
}

impl View for DeviceFlowState {
    type V = FlowView;

    open spec fn view(&self) -> FlowView {
        match self {
            DeviceFlowState::Requested { started_at } => FlowView::Requested { started_at: *started_at },
            DeviceFlowState::Polling { device_code, deadline, interval } => FlowView::Polling {
                device_code: device_code@,
                deadline: *deadline as int,
                interval: *interval,
            },
            DeviceFlowState::LoggingIn => FlowView::LoggingIn,
            DeviceFlowState::Authorized { token } => FlowView::Authorized { token: token@ },
            DeviceFlowState::Expired => FlowView::Expired,
            DeviceFlowState::Denied { error } => FlowView::Denied { error: error@ },
            DeviceFlowState::Aborted => FlowView::Aborted,
            DeviceFlowState::Failed => FlowView::Failed,
        }
    }
}

impl View for DeviceFlowEvent {
    type V = InputView;

    open spec fn view(&self) -> InputView {
        match self {
            DeviceFlowEvent::CodesIssued(r) => InputView::CodesIssued {
                device_code: r.device_code@,
                user_code: r.user_code@,
                verification_uri: r.verification_uri@,
                expires_in: r.expires_in,
                interval: r.interval,
            },
            DeviceFlowEvent::CodesFailed(_) => InputView::CodesFailed,
            DeviceFlowEvent::Woke => InputView::Woke,
            DeviceFlowEvent::PollAnswered(Ok(GetUserAuthorizedResponse::Success { access_token })) =>
                InputView::PollSuccess { access_token: access_token@ },
            DeviceFlowEvent::PollAnswered(Ok(GetUserAuthorizedResponse::Error { error })) =>
                InputView::PollError { error: error@ },
            DeviceFlowEvent::PollAnswered(Err(_)) => InputView::PollFailed,
            DeviceFlowEvent::LoggedIn(Ok(r)) => InputView::LoginOk { token: r.token@ },
            DeviceFlowEvent::LoggedIn(Err(_)) => InputView::LoginFailed,
            DeviceFlowEvent::Abort => InputView::Abort,
        }
    }
}

impl View for DeviceFlowAction {
    type V = ActionView;

    open spec fn view(&self) -> ActionView {
        match self {
            DeviceFlowAction::Present { user_code, verification_uri, wait_ms } => ActionView::Present {
                user_code: user_code@,
                verification_uri: verification_uri@,
                wait_ms: *wait_ms,
            },
            DeviceFlowAction::Wait { ms } => ActionView::Wait { ms: *ms },
            DeviceFlowAction::Poll { device_code } => ActionView::Poll { device_code: device_code@ },
            DeviceFlowAction::Login { access_token } => ActionView::Login { access_token: access_token@ },
            DeviceFlowAction::PersistToken { token } => ActionView::PersistToken { token: token@ },
            DeviceFlowAction::Stop => ActionView::Stop,
        }
    }
}

/// The provider's error code for "the human has not approved yet".
pub open spec fn pending_code() -> Seq<char> {
    "authorization_pending"@
}

/// The provider's error code for "poll less often".
pub open spec fn slow_down_code() -> Seq<char> {
    "slow_down"@
}

/// When a device code issued at `started_at` for `expires_in` seconds lapses,
/// in milliseconds; a negative lifetime counts as none.
pub open spec fn deadline_of(started_at: i64, expires_in: i64) -> int {
    started_at + (if expires_in < 0 { 0 } else { expires_in as int }) * 1000
}

/// The interval after a request to slow down, saturating.
pub open spec fn slower(interval: u64) -> u64 {
    if interval as int + SLOW_DOWN_STEP_SECS <= u64::MAX { (interval + SLOW_DOWN_STEP_SECS) as u64 } else { u64::MAX }
}

/// How long to wait before the next poll, in milliseconds: the interval, cut
/// short so that the wait ends by the deadline.
pub open spec fn capped_wait(interval: u64, now: i64, deadline: int) -> u64 {
    let want = interval * 1000;
    let w = if now + want <= deadline { want } else { deadline - now };
    if w > u64::MAX { u64::MAX } else { w as u64 }
}

/// Whether the flow is over.
pub open spec fn is_terminal(s: FlowView) -> bool {
    !(s is Requested || s is Polling || s is LoggingIn)
}

/// One transition: from state `s`, on input `e` observed at `now`
/// (milliseconds), the next state and what to do.
pub open spec fn flow_step(s: FlowView, now: i64, e: InputView) -> (FlowView, ActionView) {
    match s {
        FlowView::Requested { started_at } => match e {
            InputView::CodesIssued { device_code, user_code, verification_uri, expires_in, interval } => {
                let deadline = deadline_of(started_at, expires_in);
                if now >= deadline {
                    (FlowView::Expired, ActionView::Stop)
                } else {
                    (
                        FlowView::Polling { device_code, deadline, interval },
                        ActionView::Present { user_code, verification_uri, wait_ms: capped_wait(interval, now, deadline) },
                    )
                }
            },
            InputView::Abort => (FlowView::Aborted, ActionView::Stop),
            _ => (FlowView::Failed, ActionView::Stop),
        },
        FlowView::Polling { device_code, deadline, interval } => {
            if e is Abort {
                (FlowView::Aborted, ActionView::Stop)
            } else if now >= deadline {
                (FlowView::Expired, ActionView::Stop)
            } else {
                match e {
                    InputView::Woke => (s, ActionView::Poll { device_code }),
                    InputView::PollSuccess { access_token } => (FlowView::LoggingIn, ActionView::Login { access_token }),
                    InputView::PollError { error } => {
                        if error == pending_code() {
                            (s, ActionView::Wait { ms: capped_wait(interval, now, deadline) })
                        } else if error == slow_down_code() {
                            (
                                FlowView::Polling { device_code, deadline, interval: slower(interval) },
                                ActionView::Wait { ms: capped_wait(slower(interval), now, deadline) },
                            )
                        } else {
                            (FlowView::Denied { error }, ActionView::Stop)
                        }
                    },
                    _ => (FlowView::Failed, ActionView::Stop),
                }
            }
        },
        FlowView::LoggingIn => match e {
            InputView::LoginOk { token } => (FlowView::Authorized { token }, ActionView::PersistToken { token }),
            InputView::Abort => (FlowView::Aborted, ActionView::Stop),
            _ => (FlowView::Failed, ActionView::Stop),
        },
        _ => (s, ActionView::Stop),
    }
}

fn wait_before(interval: u64, now: i64, deadline: i128) -> (w: u64)
    requires
        now < deadline,
    ensures
        w == capped_wait(interval, now, deadline as int),
{
    let want: i128 = interval as i128 * 1000;
    let w: i128 = if now as i128 + want <= deadline { want } else { deadline - now as i128 };
    if w > u64::MAX as i128 {
        u64::MAX
    } else {
        w as u64
    }
}

fn is_same(a: &String, b: &str) -> (r: bool)
    ensures
        r == (a@ == b@),
{
    let b = b.to_owned();
    *a == b
}

impl DeviceFlowState {
    /// A flow whose codes are asked for at `now`.
    pub fn start(now: i64) -> (s: Self)
        ensures
            s@ == (FlowView::Requested { started_at: now }),
    {
        DeviceFlowState::Requested { started_at: now }
    }

    /// Whether the flow is over.
    pub fn is_done(&self) -> (b: bool)
        ensures
            b == is_terminal(self@),
    {
        match self {
            DeviceFlowState::Requested { .. } | DeviceFlowState::Polling { .. } | DeviceFlowState::LoggingIn => false,
            _ => true,
        }
    }

    /// Takes one step of the flow on what was observed at `now`.
    pub fn step(self, now: i64, event: DeviceFlowEvent) -> (r: (DeviceFlowState, DeviceFlowAction))
        ensures
            (r.0@, r.1@) == flow_step(self@, now, event@),
    {
        match self {
            DeviceFlowState::Requested { started_at } => match event {
                DeviceFlowEvent::CodesIssued(codes) => {
                    let lifetime: i128 = if codes.expires_in < 0 { 0 } else { codes.expires_in as i128 };
                    let deadline: i128 = started_at as i128 + lifetime * 1000;
                    if now as i128 >= deadline {
                        (DeviceFlowState::Expired, DeviceFlowAction::Stop)
                    } else {
                        let CreateUserCodesResponse { device_code, user_code, verification_uri, expires_in: _, interval } = codes;
                        (
                            DeviceFlowState::Polling { device_code, deadline, interval },
                            DeviceFlowAction::Present { user_code, verification_uri, wait_ms: wait_before(interval, now, deadline) },
                        )
                    }
                },
                DeviceFlowEvent::Abort => (DeviceFlowState::Aborted, DeviceFlowAction::Stop),
                _ => (DeviceFlowState::Failed, DeviceFlowAction::Stop),
            },
            DeviceFlowState::Polling { device_code, deadline, interval } => {
                if let DeviceFlowEvent::Abort = event {
                    return (DeviceFlowState::Aborted, DeviceFlowAction::Stop);
                }
                if now as i128 >= deadline {
                    return (DeviceFlowState::Expired, DeviceFlowAction::Stop);
                }
                match event {
                    DeviceFlowEvent::Woke => {
                        let code = device_code.clone();
                        (DeviceFlowState::Polling { device_code, deadline, interval }, DeviceFlowAction::Poll { device_code: code })
                    },
                    DeviceFlowEvent::PollAnswered(Ok(GetUserAuthorizedResponse::Success { access_token })) => {
                        (DeviceFlowState::LoggingIn, DeviceFlowAction::Login { access_token })
                    },
                    DeviceFlowEvent::PollAnswered(Ok(GetUserAuthorizedResponse::Error { error })) => {
                        if is_same(&error, "authorization_pending") {
                            let ms = wait_before(interval, now, deadline);
                            (DeviceFlowState::Polling { device_code, deadline, interval }, DeviceFlowAction::Wait { ms })
                        } else if is_same(&error, "slow_down") {
                            let next = interval.saturating_add(SLOW_DOWN_STEP_SECS);
                            let ms = wait_before(next, now, deadline);
                            (DeviceFlowState::Polling { device_code, deadline, interval: next }, DeviceFlowAction::Wait { ms })
                        } else {
                            (DeviceFlowState::Denied { error }, DeviceFlowAction::Stop)
                        }
                    },
                    _ => (DeviceFlowState::Failed, DeviceFlowAction::Stop),
                }
            },
            DeviceFlowState::LoggingIn => match event {
                DeviceFlowEvent::LoggedIn(Ok(LoginResponse { token })) => {
                    let t = token.clone();
                    (DeviceFlowState::Authorized { token }, DeviceFlowAction::PersistToken { token: t })
                },
                DeviceFlowEvent::Abort => (DeviceFlowState::Aborted, DeviceFlowAction::Stop),
                _ => (DeviceFlowState::Failed, DeviceFlowAction::Stop),
            },
            other => (other, DeviceFlowAction::Stop),
        }
    }
}

/// The state after a run of inputs, each with the time it was observed.
pub open spec fn flow_run(s: FlowView, evs: Seq<(i64, InputView)>) -> FlowView
    decreases evs.len(),
{
    if evs.len() == 0 {
        s
    } else {
        flow_step(flow_run(s, evs.drop_last()), evs.last().0, evs.last().1).0
    }
}

/// The actions a run of inputs asks for, in order.
pub open spec fn flow_actions(s: FlowView, evs: Seq<(i64, InputView)>) -> Seq<ActionView>
    decreases evs.len(),
{
    if evs.len() == 0 {
        Seq::empty()
    } else {
        flow_actions(s, evs.drop_last()).push(flow_step(flow_run(s, evs.drop_last()), evs.last().0, evs.last().1).1)
    }
}

/// States that can follow a backend login request.
pub open spec fn after_login(s: FlowView) -> bool {
    s is LoggingIn || s is Authorized || s is Failed || s is Aborted
}

proof fn lemma_login_leads_on(s: FlowView, evs: Seq<(i64, InputView)>)
    ensures
        flow_actions(s, evs).len() == evs.len(),
        (exists|i: int| 0 <= i < evs.len() && flow_actions(s, evs)[i] is Login) ==> after_login(flow_run(s, evs)),
    decreases evs.len(),
{
    if evs.len() > 0 {
        let prefix = evs.drop_last();
        lemma_login_leads_on(s, prefix);
        let acts = flow_actions(s, evs);
        if exists|i: int| 0 <= i < evs.len() && acts[i] is Login {
            let i = choose|i: int| 0 <= i < evs.len() && acts[i] is Login;
            if i < prefix.len() {
                assert(flow_actions(s, prefix)[i] == acts[i]);
            }
        }
    }
}

/// The backend login is never called on a path that ends expired or denied.
pub proof fn lemma_no_login_when_expired_or_denied(start: i64, evs: Seq<(i64, InputView)>)
    ensures
        flow_run(FlowView::Requested { started_at: start }, evs) is Expired
            || flow_run(FlowView::Requested { started_at: start }, evs) is Denied
            ==> forall|i: int| 0 <= i < flow_actions(FlowView::Requested { started_at: start }, evs).len()
                ==> !(#[trigger] flow_actions(FlowView::Requested { started_at: start }, evs)[i] is Login),
{
    lemma_login_leads_on(FlowView::Requested { started_at: start }, evs);
}

/// How long the driver is asked to wait before its next observation.
pub open spec fn wait_of(a: ActionView) -> int {
    match a {
        ActionView::Present { wait_ms, .. } => wait_ms as int,
        ActionView::Wait { ms } => ms as int,
        _ => 0,
    }
}

/// Every wait the flow asks for ends by the deadline of the code it polls for.
pub proof fn lemma_waits_end_by_deadline(s: FlowView, now: i64, e: InputView)
    ensures
        ({
            let (next, a) = flow_step(s, now, e);
            (a is Wait || a is Present) ==> next is Polling && now + wait_of(a) <= next->Polling_deadline
        }),
{
}

proof fn lemma_flow_in_time(start: i64, evs: Seq<(i64, InputView)>, i: int)
    requires
        evs.len() >= 1,
        evs[0].1 is CodesIssued,
        1 <= i <= evs.len(),
    ensures
        ({
            let d = deadline_of(start, evs[0].1->CodesIssued_expires_in);
            let s0 = FlowView::Requested { started_at: start };
            let s = flow_run(s0, evs.take(i));
            let a = flow_step(flow_run(s0, evs.take(i - 1)), evs[i - 1].0, evs[i - 1].1).1;
            is_terminal(s) || ((s is LoggingIn || (s is Polling && s->Polling_deadline == d))
                && evs[i - 1].0 + wait_of(a) <= d)
        }),
    decreases i,
{
    assert(evs.take(i).drop_last() =~= evs.take(i - 1));
    assert(evs.take(i).last() == evs[i - 1]);
    if i == 1 {
        assert(evs.take(0) =~= Seq::<(i64, InputView)>::empty());
    } else {
        lemma_flow_in_time(start, evs, i - 1);
        assert(evs.take(i - 1).drop_last() =~= evs.take(i - 2));
    }
}

/// The poller finishes within the code's lifetime plus one call's latency.
/// Suppose the driver honours each wait the flow asks for and answers each
/// call within `slack` milliseconds: every observation comes at most the
/// requested wait plus `slack` after the previous one (the first, the codes,
/// at most `slack` after the start). Then every observation that still finds
/// the flow running is made by `start + expires_in + slack`; with calls bounded
/// by the polling interval that is within `expires_in + interval`.
pub proof fn lemma_poller_ends_in_time(start: i64, slack: int, evs: Seq<(i64, InputView)>)
    requires
        evs.len() >= 1,
        evs[0].1 is CodesIssued,
        slack >= 0,
        evs[0].0 <= start + slack,
        forall|i: int| 1 <= i < evs.len() ==> #[trigger] evs[i].0 <= evs[i - 1].0 + wait_of(
            flow_step(flow_run(FlowView::Requested { started_at: start }, evs.take(i - 1)), evs[i - 1].0, evs[i - 1].1).1,
        ) + slack,
    ensures
        forall|i: int|
            0 <= i < evs.len() && !is_terminal(flow_run(FlowView::Requested { started_at: start }, #[trigger] evs.take(i)))
                ==> evs[i].0 <= deadline_of(start, evs[0].1->CodesIssued_expires_in) + slack,
{
    let d = deadline_of(start, evs[0].1->CodesIssued_expires_in);
    assert forall|i: int|
        0 <= i < evs.len() && !is_terminal(flow_run(FlowView::Requested { started_at: start }, #[trigger] evs.take(i)))
            implies evs[i].0 <= d + slack by {
        if i >= 1 {
            lemma_flow_in_time(start, evs, i);
            assert(evs[i].0 <= evs[i - 1].0 + wait_of(
                flow_step(flow_run(FlowView::Requested { started_at: start }, evs.take(i - 1)), evs[i - 1].0, evs[i - 1].1).1,
            ) + slack);
        }
    }
}

} // verus!
