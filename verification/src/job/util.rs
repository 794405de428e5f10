//! The retry policy of the network client.
//!
//! A [`Client`] holds the policy; a [`Call`] is one logical request under it.
//! The call never touches the network: it tells its caller what to do next
//! (take the permit, cool down, wait for the rate limiter, send) and is told
//! what came of it. The permit is taken before every attempt and held across
//! the cooldown that precedes a retry, so that one failing call holds back
//! every other call that shares the permit.

use vstd::prelude::*;

verus! {

/// `bytes::Bytes`: a response body, as the transport hands it over. Nothing
/// here looks into one.
#[verifier::external_type_specification]
#[verifier::external_body]
pub struct ExBytes(bytes::Bytes);

/// `reqwest::Error`: a failure of the transport, be it no connection, a
/// status that is no success, or a body that could not be read. Nothing here
/// looks into one.
#[verifier::external_type_specification]
#[verifier::external_body]
pub struct ExTransportError(reqwest::Error);

/// `tokio::sync::AcquireError`: the failure to get a permit from a closed
/// semaphore.
#[verifier::external_type_specification]
#[verifier::external_body]
pub struct ExAcquireError(tokio::sync::AcquireError);

/// `serde_json::Value`: a JSON document, here the body of a POST request.
/// Nothing here looks into one.
#[verifier::external_type_specification]
#[verifier::external_body]
pub struct ExJsonValue(serde_json::Value);

/// `serde_json::Error`: the failure to decode a JSON document into the
/// expected shape.
#[verifier::external_type_specification]
#[verifier::external_body]
pub struct ExJsonError(serde_json::Error);

/// Seconds that a call holds the permit before it tries again.
pub const COOLDOWN_SECONDS: u64 = 300;

/// Permits that the calls of one client share: one, so that a call that
/// cools down holds back all the others.
pub const PERMITS: usize = 1;

/// Why a call gave up.
#[derive(Debug)]
pub enum GetError {
    /// Every attempt that the policy allows has failed; this is the last
    /// failure.
    MaxRetriesReached(reqwest::Error),
    /// The permit could not be had.
    SemaphoreError(tokio::sync::AcquireError),
}

/// Why no decoded document came back.
#[derive(Debug)]
pub enum JsonDecodeError {
    /// The call itself gave up.
    NetworkError(GetError),
    /// A body came back and could not be decoded.
    DecodeError(serde_json::Error),
}

/// What a call sends.
pub enum RequestType {
    Get,
    Post(serde_json::Value),
}

/// What the caller of a [`Call`] has to do next.
#[derive(Debug)]
pub enum Action {
    /// Wait for the permit and keep it.
    AcquirePermit,
    /// Sleep this long while holding the permit.
    CoolDown { seconds: u64 },
    /// Give the permit back.
    ReleasePermit,
    /// Wait until the rate limiter admits one request.
    AwaitQuota,
    /// Send the request and wait for the response.
    Send,
    /// The call is over, with this result.
    Return(Result<bytes::Bytes, GetError>),
    /// The call was over before; nothing is left to do.
    Done,
}

/// What came of the last action.
pub enum Event {
    /// The permit is held.
    PermitAcquired,
    /// The permit cannot be had.
    PermitRefused(tokio::sync::AcquireError),
    /// The cooldown has passed.
    CooledDown,
    /// The permit was given back.
    PermitReleased,
    /// The rate limiter has admitted the request.
    QuotaReady,
    /// A response with a success status came back, with this body.
    Succeeded(bytes::Bytes),
    /// The request failed: in transport, by its status, or while its body was
    /// read.
    Failed(reqwest::Error),
}

/// Where a call stands.
#[derive(Clone, Copy, Debug, PartialEq, Eq, Structural)]
pub enum Phase {
    /// Waiting for the permit.
    Permit,
    /// Holding the permit through the cooldown.
    Cooling,
    /// Holding the permit, about to give it back.
    Release,
    /// Waiting for the rate limiter.
    Quota,
    /// The request is sent and not yet answered.
    InFlight,
    /// The result has been handed out.
    Finished,
}

/// The policy under which calls are made.
#[derive(Clone, Copy, Debug)]
pub struct Client {
    pub limit: Option<u32>,
    pub max_retries: u8,
}

/// One logical request: what to send where, the policy it runs under, the
/// attempts that have failed so far, and where it stands.
pub struct Call {
    pub url: String,
    pub request: RequestType,
    pub max_retries: u8,
    pub limited: bool,
    pub retries: u8,
    pub phase: Phase,
}

impl Call {
    /// The call after `event`, and what its caller has to do then.
    ///
    /// An attempt takes the permit, cools down first if an earlier attempt
    /// failed, gives the permit back, waits for the rate limiter if there is
    /// one, and sends. A failure starts the next attempt unless
    /// `max_retries` attempts have failed before it. An event that does not
    /// answer the action awaited changes nothing and has the action repeated.
    pub open spec fn step(self, event: Event) -> (Call, Action) {
        match (self.phase, event) {
            (Phase::Permit, Event::PermitAcquired) => if self.retries > 0 {
                (Call { phase: Phase::Cooling, ..self }, Action::CoolDown { seconds: COOLDOWN_SECONDS })
            } else {
                (Call { phase: Phase::Release, ..self }, Action::ReleasePermit)
            },
            (Phase::Permit, Event::PermitRefused(closed)) => (
                Call { phase: Phase::Finished, ..self },
                Action::Return(Err(GetError::SemaphoreError(closed))),
            ),
            (Phase::Cooling, Event::CooledDown) => (
                Call { phase: Phase::Release, ..self },
                Action::ReleasePermit,
            ),
            (Phase::Release, Event::PermitReleased) => if self.limited {
                (Call { phase: Phase::Quota, ..self }, Action::AwaitQuota)
            } else {
                (Call { phase: Phase::InFlight, ..self }, Action::Send)
            },
            (Phase::Quota, Event::QuotaReady) => (
                Call { phase: Phase::InFlight, ..self },
                Action::Send,
            ),
            (Phase::InFlight, Event::Succeeded(body)) => (
                Call { phase: Phase::Finished, ..self },
                Action::Return(Ok(body)),
            ),
            (Phase::InFlight, Event::Failed(failure)) => if self.retries >= self.max_retries {
                (
                    Call { phase: Phase::Finished, ..self },
                    Action::Return(Err(GetError::MaxRetriesReached(failure))),
                )
            } else {
                (
                    Call { phase: Phase::Permit, retries: (self.retries + 1) as u8, ..self },
                    Action::AcquirePermit,
                )
            },
            _ => (self, self.awaited()),
        }
    }

    /// The action that the call is waiting on.
    pub open spec fn awaited(self) -> Action {
        match self.phase {
            Phase::Permit => Action::AcquirePermit,
            Phase::Cooling => Action::CoolDown { seconds: COOLDOWN_SECONDS },
            Phase::Release => Action::ReleasePermit,
            Phase::Quota => Action::AwaitQuota,
            Phase::InFlight => Action::Send,
            Phase::Finished => Action::Done,
        }
    }

    /// The action that the call is waiting on.
    pub fn pending(&self) -> (action: Action)
        ensures
            action == self.awaited(),
    {
        match self.phase {
            Phase::Permit => Action::AcquirePermit,
            Phase::Cooling => Action::CoolDown { seconds: COOLDOWN_SECONDS },
            Phase::Release => Action::ReleasePermit,
            Phase::Quota => Action::AwaitQuota,
            Phase::InFlight => Action::Send,
            Phase::Finished => Action::Done,
        }
    }

    /// Takes `event` and says what to do next.
    pub fn advance(&mut self, event: Event) -> (action: Action)
        ensures
            (*final(self), action) == old(self).step(event),
    {
        match (self.phase, event) {
            (Phase::Permit, Event::PermitAcquired) => {
                if self.retries > 0 {
                    self.phase = Phase::Cooling;
                    Action::CoolDown { seconds: COOLDOWN_SECONDS }
                } else {
                    self.phase = Phase::Release;
                    Action::ReleasePermit
                }
            },
            (Phase::Permit, Event::PermitRefused(closed)) => {
                self.phase = Phase::Finished;
                Action::Return(Err(GetError::SemaphoreError(closed)))
            },
            (Phase::Cooling, Event::CooledDown) => {
                self.phase = Phase::Release;
                Action::ReleasePermit
            },
            (Phase::Release, Event::PermitReleased) => {
                if self.limited {
                    self.phase = Phase::Quota;
                    Action::AwaitQuota
                } else {
                    self.phase = Phase::InFlight;
                    Action::Send
                }
            },
            (Phase::Quota, Event::QuotaReady) => {
                self.phase = Phase::InFlight;
                Action::Send
            },
            (Phase::InFlight, Event::Succeeded(body)) => {
                self.phase = Phase::Finished;
                Action::Return(Ok(body))
            },
            (Phase::InFlight, Event::Failed(failure)) => {
                if self.retries >= self.max_retries {
                    self.phase = Phase::Finished;
                    Action::Return(Err(GetError::MaxRetriesReached(failure)))
                } else {
                    self.phase = Phase::Permit;
                    self.retries = self.retries + 1;
                    Action::AcquirePermit
                }
            },
            _ => self.pending(),
        }
    }
}

impl Client {
    /// A policy without rate limit and without retries.
    pub fn new() -> (client: Client)
        ensures
            client.limit is None,
            client.max_retries == 0,
    {
        Client { limit: None, max_retries: 0 }
    }

    /// The same policy with a rate limit of `requests_per_second`.
    pub fn with_limit(self, requests_per_second: u32) -> (client: Client)
        requires
            requests_per_second > 0,
        ensures
            client.limit == Some(requests_per_second),
            client.max_retries == self.max_retries,
    {
        Client { limit: Some(requests_per_second), max_retries: self.max_retries }
    }

    /// The same policy with up to `max_retries` further attempts after the
    /// first.
    pub fn with_max_retries(self, max_retries: u8) -> (client: Client)
        ensures
            client.limit == self.limit,
            client.max_retries == max_retries,
    {
        Client { limit: self.limit, max_retries }
    }

    /// A GET of `url` under this policy; it starts by asking for the permit.
    pub fn get(&self, url: String) -> (call: Call)
        ensures
            call == self.start(url, RequestType::Get),
    {
        self.get_or_post(url, RequestType::Get)
    }

    /// A POST of `body` to `url` under this policy; it starts by asking for
    /// the permit.
    pub fn post(&self, url: String, body: serde_json::Value) -> (call: Call)
        ensures
            call == self.start(url, RequestType::Post(body)),
    {
        self.get_or_post(url, RequestType::Post(body))
    }

    /// A call under this policy before its first attempt.
    pub open spec fn start(self, url: String, request: RequestType) -> Call {
        Call {
            url,
            request,
            max_retries: self.max_retries,
            limited: self.limit is Some,
            retries: 0,
            phase: Phase::Permit,
        }
    }

    /// What a fetch of a JSON document comes to, from what the call brought
    /// and a way to decode a body: the decoded document where a body came
    /// back and could be decoded, a decode error where it could not, a
    /// network error where the call gave up. The two kinds of failure are
    /// kept apart because a caller may take the first for an empty answer,
    /// never the second.
    pub fn get_json<T, F: FnOnce(bytes::Bytes) -> Result<T, serde_json::Error>>(
        fetched: Result<bytes::Bytes, GetError>,
        decode: F,
    ) -> (document: Result<T, JsonDecodeError>)
        requires
            fetched matches Ok(body) ==> decode.requires((body,)),
        ensures
            match fetched {
                Err(failure) => document == Err::<T, JsonDecodeError>(
                    JsonDecodeError::NetworkError(failure),
                ),
                Ok(body) => exists|decoded: Result<T, serde_json::Error>|
                    {
                        &&& #[trigger] decode.ensures((body,), decoded)
                        &&& document == match decoded {
                            Ok(value) => Ok::<T, JsonDecodeError>(value),
                            Err(failure) => Err(JsonDecodeError::DecodeError(failure)),
                        }
                    },
            },
    {
        match fetched {
            Err(failure) => Err(JsonDecodeError::NetworkError(failure)),
            Ok(body) => match decode(body) {
                Ok(value) => Ok(value),
                Err(failure) => Err(JsonDecodeError::DecodeError(failure)),
            },
        }
    }

    /// A call of either kind under this policy.
    pub fn get_or_post(&self, url: String, req_type: RequestType) -> (call: Call)
        ensures
            call == self.start(url, req_type),
    {
        Call {
            url,
            request: req_type,
            max_retries: self.max_retries,
            limited: self.limit.is_some(),
            retries: 0,
            phase: Phase::Permit,
        }
    }
}

impl Phase {
    /// Whether a call in this phase holds the permit.
    pub open spec fn holds_permit(self) -> bool {
        self == Phase::Cooling || self == Phase::Release
    }
}

/// Whatever the event, the action that a call answers it with is the one
/// it then waits on, unless the call returns. So a cooldown is only ever
/// spent holding the permit, and no request is sent, nor the rate limiter
/// waited for, while the permit is held.
pub proof fn lemma_action_is_awaited(call: Call, event: Event)
    ensures
        ({
            let (next, action) = call.step(event);
            &&& action is Return || action == next.awaited()
            &&& action is CoolDown ==> next.phase.holds_permit()
            &&& action is Send || action is AwaitQuota ==> !next.phase.holds_permit()
        }),
{
}

/// How a run of a call ended: the requests it sent, the cooldowns it went
/// through, the times it waited for the rate limiter, and the result it
/// handed out, if it got that far.
pub struct Run {
    pub sent: nat,
    pub cooldowns: nat,
    pub quota_waits: nat,
    pub result: Option<Result<bytes::Bytes, GetError>>,
}

/// The event that answers `action` when the permit is granted, nothing is
/// skipped, and the transport answers a request with `response`.
pub open spec fn answer(action: Action, response: Result<bytes::Bytes, reqwest::Error>) -> Event {
    match action {
        Action::AcquirePermit => Event::PermitAcquired,
        Action::CoolDown { .. } => Event::CooledDown,
        Action::ReleasePermit => Event::PermitReleased,
        Action::AwaitQuota => Event::QuotaReady,
        _ => match response {
            Ok(body) => Event::Succeeded(body),
            Err(failure) => Event::Failed(failure),
        },
    }
}

/// Steps that a call in `phase` is away from its next response, at most.
pub open spec fn steps_to_response(phase: Phase) -> nat {
    match phase {
        Phase::Permit => 4,
        Phase::Cooling => 3,
        Phase::Release => 2,
        Phase::Quota => 1,
        Phase::InFlight => 0,
        Phase::Finished => 0,
    }
}

impl Call {
    /// What becomes of the call when every action is answered in turn and
    /// the transport answers the requests with `responses`, one after the
    /// other: the run ends with the result, or where the responses run out.
    pub open spec fn run(self, responses: Seq<Result<bytes::Bytes, reqwest::Error>>) -> Run
        decreases responses.len(), steps_to_response(self.phase),
    {
        if self.phase == Phase::Finished {
            Run { sent: 0, cooldowns: 0, quota_waits: 0, result: None }
        } else if self.phase == Phase::InFlight {
            if responses.len() == 0 {
                Run { sent: 0, cooldowns: 0, quota_waits: 0, result: None }
            } else {
                let (next, action) = self.step(answer(Action::Send, responses[0]));
                match action {
                    Action::Return(result) => Run {
                        sent: 0,
                        cooldowns: 0,
                        quota_waits: 0,
                        result: Some(result),
                    },
                    _ => next.run(responses.drop_first()),
                }
            }
        } else {
            let (next, action) = self.step(answer(self.awaited(), arbitrary()));
            let rest = next.run(responses);
            Run {
                sent: rest.sent + if action is Send {
                    1nat
                } else {
                    0nat
                },
                cooldowns: rest.cooldowns + if action is CoolDown {
                    1nat
                } else {
                    0nat
                },
                quota_waits: rest.quota_waits + if action is AwaitQuota {
                    1nat
                } else {
                    0nat
                },
                result: rest.result,
            }
        }
    }
}

/// What a call hands out when `response` ends it.
pub open spec fn result_of(response: Result<bytes::Bytes, reqwest::Error>) -> Result<
    bytes::Bytes,
    GetError,
> {
    match response {
        Ok(body) => Ok(body),
        Err(failure) => Err(GetError::MaxRetriesReached(failure)),
    }
}

/// A call about to start an attempt, whose next `k` requests fail and leave
/// retries to spare, ends with its request after those.
proof fn lemma_run_from_permit(
    call: Call,
    responses: Seq<Result<bytes::Bytes, reqwest::Error>>,
    k: nat,
)
    requires
        call.phase == Phase::Permit,
        k < responses.len(),
        forall|i: int| 0 <= i < k ==> (#[trigger] responses[i]) is Err,
        call.retries + k <= call.max_retries,
        responses[k as int] is Ok || call.retries + k == call.max_retries,
    ensures
        call.run(responses) == (Run {
            sent: k + 1,
            cooldowns: if call.retries > 0 {
                k + 1
            } else {
                k
            },
            quota_waits: if call.limited {
                k + 1
            } else {
                0
            },
            result: Some(result_of(responses[k as int])),
        }),
    decreases k,
{
    reveal_with_fuel(Call::run, 6);
    if k > 0 {
        let next = Call { phase: Phase::Permit, retries: (call.retries + 1) as u8, ..call };
        let rest = responses.drop_first();
        assert(rest[k - 1] == responses[k as int]);
        assert forall|i: int| 0 <= i < k - 1 implies (#[trigger] rest[i]) is Err by {
            assert(rest[i] == responses[i + 1]);
        }
        lemma_run_from_permit(next, rest, (k - 1) as nat);
    }
}

/// A call under a policy with `max_retries` retries whose every request
/// fails sends exactly `max_retries + 1` requests, cools down before each but
/// the first, waits for the rate limiter before each if the policy has one,
/// and then gives up with the last failure.
pub proof fn lemma_gives_up_after_last_retry(
    client: Client,
    url: String,
    request: RequestType,
    responses: Seq<Result<bytes::Bytes, reqwest::Error>>,
)
    requires
        responses.len() > client.max_retries,
        forall|i: int| 0 <= i <= client.max_retries ==> (#[trigger] responses[i]) is Err,
    ensures
        client.start(url, request).run(responses) == (Run {
            sent: client.max_retries as nat + 1,
            cooldowns: client.max_retries as nat,
            quota_waits: if client.limit is Some {
                client.max_retries as nat + 1
            } else {
                0
            },
            result: Some(
                Err(GetError::MaxRetriesReached(responses[client.max_retries as int]->Err_0)),
            ),
        }),
{
    lemma_run_from_permit(client.start(url, request), responses, client.max_retries as nat);
}

/// A call whose request succeeds at attempt `k`, counted from zero and
/// within the retries of its policy, after `k` failures, sends exactly
/// `k + 1` requests, each behind a wait for the rate limiter if the policy
/// has one, and hands out the body of the last; whatever the transport would
/// answer after that is never asked for.
pub proof fn lemma_stops_at_first_success(
    client: Client,
    url: String,
    request: RequestType,
    responses: Seq<Result<bytes::Bytes, reqwest::Error>>,
    k: nat,
)
    requires
        k <= client.max_retries,
        k < responses.len(),
        forall|i: int| 0 <= i < k ==> (#[trigger] responses[i]) is Err,
        responses[k as int] is Ok,
    ensures
        client.start(url, request).run(responses) == (Run {
            sent: k + 1,
            cooldowns: k,
            quota_waits: if client.limit is Some {
                k + 1
            } else {
                0
            },
            result: Some(Ok(responses[k as int]->Ok_0)),
        }),
{
    lemma_run_from_permit(client.start(url, request), responses, k);
}

} // verus!
