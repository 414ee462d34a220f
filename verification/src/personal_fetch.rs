//! The course of one fetch of the personal plan's usage: what to do next, given
//! what the last thing came to.
//!
//! The subscription and the quotas are asked for first; a fetch does without
//! the answers. Then the usage is asked for, again after a delay where the
//! answer is a success without usage windows, and a few times at most.

use crate::console::{AlibabaTokenPlanRegion, ConsoleProfile, ConsoleSupport};
use crate::error::{ErrorView, ProviderError};
use crate::json::{EntriesView, Json, JsonMap, JsonView};
use crate::personal_usage::{
    bytes_view, is_parsed_usage, is_windowless_success_of, parse_personal_usage,
    personal_usage_success_without_windows, TokenPlanSnapshot,
};
use vstd::prelude::*;

verus! {

/// How often the usage is asked for at most.
pub const MAX_USAGE_ATTEMPTS: usize = 3;

/// How long to wait before the usage is asked for again, in milliseconds.
pub const RETRY_DELAY_MILLIS: u64 = 400;

/// What a fetch is waiting for.
#[derive(Clone, Copy, Debug)]
pub enum FetchPhase {
    /// The answer about the subscription.
    Subscription,
    /// The answer about the quotas.
    QuotaConfig,
    /// The answer about the usage.
    Usage,
    /// The end of a delay.
    Delay,
    /// Nothing: the fetch has ended.
    Ended,
}

/// A fetch under way.
pub struct PersonalFetch {
    phase: FetchPhase,
    attempt: usize,
    subscription: Option<Vec<u8>>,
    quota_config: Option<Vec<u8>>,
}

/// The model of a [`PersonalFetch`].
pub struct FetchState {
    pub phase: FetchPhase,
    /// How many answers about the usage had no windows.
    pub attempt: nat,
    pub subscription: Option<Seq<u8>>,
    pub quota_config: Option<Seq<u8>>,
}

impl View for PersonalFetch {
    type V = FetchState;

    closed spec fn view(&self) -> FetchState {
        FetchState {
            phase: self.phase,
            attempt: self.attempt as nat,
            subscription: answer_view(self.subscription),
            quota_config: answer_view(self.quota_config),
        }
    }
}

/// What the last thing to do came to. `E` is why a request has failed.
pub enum FetchEvent<E> {
    /// The body of the answer to a request, or why there is none.
    Posted(Result<Vec<u8>, E>),
    /// The delay is over.
    Slept,
}

/// Why a fetch has failed.
pub enum FetchFailure<E> {
    /// The request for the usage has failed.
    Request(E),
    /// The answer was no good.
    Provider(ProviderError),
}

/// How a fetch ends.
pub type FetchOutcome<N, D, E> = Result<TokenPlanSnapshot<N, D>, FetchFailure<E>>;

/// The next thing to do.
pub enum FetchAction<N, D, E> {
    /// Ask for the API with this data.
    Post { api: String, data_parameters: JsonMap },
    /// Wait.
    Sleep { millis: u64 },
    /// Stop, with this outcome.
    Finish(FetchOutcome<N, D, E>),
}

/// The body of an answer, if there is one.
pub open spec fn body_of<E>(answer: Result<Vec<u8>, E>) -> Option<Seq<u8>> {
    match answer {
        Ok(body) => Some(body@),
        Err(_) => None,
    }
}

/// Whether the action asks for the API with this data.
pub open spec fn posts<N, D, E>(
    action: FetchAction<N, D, E>,
    api: Seq<char>,
    data: EntriesView,
) -> bool {
    match action {
        FetchAction::Post { api: a, data_parameters } => a@ == api && data_parameters@ == data,
        _ => false,
    }
}

/// The model of an optional answer.
pub open spec fn answer_view(answer: Option<Vec<u8>>) -> Option<Seq<u8>> {
    match answer {
        Some(body) => Some(body@),
        None => None,
    }
}

/// The failure of a fetch whose answers never had a usage window.
pub open spec fn unavailable() -> ErrorView {
    ErrorView::Other(
        "Alibaba Token Plan usage is temporarily unavailable; it will refresh automatically."@,
    )
}

/// What to do about an answer about the usage.
pub enum UsageVerdict<N, D> {
    /// Ask again after the delay.
    Retry,
    /// Stop, with this outcome.
    Stop(Result<TokenPlanSnapshot<N, D>, ProviderError>),
}

/// Whether `verdict` is right for the answer of this attempt: a snapshot is
/// taken; a windowless success is asked for again while attempts are left;
/// any other failure stands.
pub open spec fn is_verdict<N, D>(
    attempt: nat,
    parsed: Result<TokenPlanSnapshot<N, D>, ProviderError>,
    windowless: bool,
    verdict: UsageVerdict<N, D>,
) -> bool {
    if parsed is Ok || !windowless {
        verdict == UsageVerdict::Stop(parsed)
    } else if attempt + 1 >= MAX_USAGE_ATTEMPTS {
        verdict matches UsageVerdict::Stop(Err(error)) && error@ == unavailable()
    } else {
        verdict == UsageVerdict::<N, D>::Retry
    }
}

/// What to do about an answer about the usage that was read to `parsed`, and
/// is a windowless success or not.
pub fn judge_usage<N, D>(
    attempt: usize,
    parsed: Result<TokenPlanSnapshot<N, D>, ProviderError>,
    windowless: bool,
) -> (r: UsageVerdict<N, D>)
    ensures
        is_verdict(attempt as nat, parsed, windowless, r),
{
    match parsed {
        Ok(snapshot) => UsageVerdict::Stop(Ok(snapshot)),
        Err(error) => {
            if !windowless {
                UsageVerdict::Stop(Err(error))
            } else if attempt >= MAX_USAGE_ATTEMPTS - 1 {
                UsageVerdict::Stop(
                    Err(
                        ProviderError::Other(
                            "Alibaba Token Plan usage is temporarily unavailable; it will refresh automatically.".to_string(),
                        ),
                    ),
                )
            } else {
                UsageVerdict::Retry
            }
        },
    }
}

impl FetchState {
    /// A fetch that asks for the subscription first.
    pub open spec fn start() -> FetchState {
        FetchState {
            phase: FetchPhase::Subscription,
            attempt: 0,
            subscription: None,
            quota_config: None,
        }
    }

    /// The attempts stay within their bound while the fetch goes on.
    pub open spec fn well_formed(self) -> bool {
        match self.phase {
            FetchPhase::Subscription | FetchPhase::QuotaConfig => self.attempt == 0,
            FetchPhase::Usage => self.attempt < MAX_USAGE_ATTEMPTS,
            FetchPhase::Delay => 0 < self.attempt < MAX_USAGE_ATTEMPTS,
            FetchPhase::Ended => true,
        }
    }

    /// Whether the fetch is waiting for this kind of event.
    pub open spec fn awaits<E>(self, event: FetchEvent<E>) -> bool {
        match self.phase {
            FetchPhase::Subscription | FetchPhase::QuotaConfig | FetchPhase::Usage => event
                is Posted,
            FetchPhase::Delay => event is Slept,
            FetchPhase::Ended => false,
        }
    }
}

/// Whether `next` and `action` follow from a verdict on the usage.
pub open spec fn follows_verdict<N, D, E>(
    state: FetchState,
    verdict: UsageVerdict<N, D>,
    next: FetchState,
    action: FetchAction<N, D, E>,
) -> bool {
    &&& next.subscription == state.subscription
    &&& next.quota_config == state.quota_config
    &&& match verdict {
        UsageVerdict::Retry => {
            &&& next.phase is Delay
            &&& next.attempt == state.attempt + 1
            &&& action == FetchAction::<N, D, E>::Sleep { millis: RETRY_DELAY_MILLIS }
        },
        UsageVerdict::Stop(Ok(snapshot)) => {
            &&& next.phase is Ended
            &&& next.attempt == state.attempt
            &&& action == FetchAction::<N, D, E>::Finish(Ok(snapshot))
        },
        UsageVerdict::Stop(Err(error)) => {
            &&& next.phase is Ended
            &&& next.attempt == state.attempt
            &&& action == FetchAction::<N, D, E>::Finish(Err(FetchFailure::Provider(error)))
        },
    }
}

/// Whether `next` and `action` are the step that an answer about the usage
/// leads to.
pub open spec fn is_usage_step<S: ConsoleSupport, E>(
    support: S,
    state: FetchState,
    body: Seq<u8>,
    next: FetchState,
    action: FetchAction<S::Number, S::Date, E>,
) -> bool {
    exists|
        parsed: Result<TokenPlanSnapshot<S::Number, S::Date>, ProviderError>,
        windowless: bool,
        verdict: UsageVerdict<S::Number, S::Date>,
    |
        #[trigger] is_parsed_usage(
            support,
            body,
            state.subscription,
            state.quota_config,
            parsed,
        ) && (parsed is Err ==> is_windowless_success_of(support, body, windowless))
            && #[trigger] is_verdict(state.attempt, parsed, windowless, verdict)
            && follows_verdict(state, verdict, next, action)
}

/// Whether `next` and `action` are the step that the event leads to.
pub open spec fn is_step<S: ConsoleSupport, E>(
    support: S,
    console: ConsoleProfile,
    state: FetchState,
    event: FetchEvent<E>,
    next: FetchState,
    action: FetchAction<S::Number, S::Date, E>,
) -> bool {
    match (state.phase, event) {
        (FetchPhase::Subscription, FetchEvent::Posted(answer)) => {
            &&& next == (FetchState {
                phase: FetchPhase::QuotaConfig,
                attempt: state.attempt,
                subscription: body_of(answer),
                quota_config: state.quota_config,
            })
            &&& posts(action, console.personal_quota_config_api@, seq![])
        },
        (FetchPhase::QuotaConfig, FetchEvent::Posted(answer)) => {
            &&& next == (FetchState {
                phase: FetchPhase::Usage,
                attempt: state.attempt,
                subscription: state.subscription,
                quota_config: body_of(answer),
            })
            &&& posts(action, console.personal_usage_api@, seq![])
        },
        (FetchPhase::Usage, FetchEvent::Posted(Ok(body))) => is_usage_step(
            support,
            state,
            body@,
            next,
            action,
        ),
        (FetchPhase::Usage, FetchEvent::Posted(Err(error))) => {
            &&& next == (FetchState {
                phase: FetchPhase::Ended,
                attempt: state.attempt,
                subscription: state.subscription,
                quota_config: state.quota_config,
            })
            &&& action == FetchAction::<S::Number, S::Date, E>::Finish(
                Err(FetchFailure::Request(error)),
            )
        },
        (FetchPhase::Delay, FetchEvent::Slept) => {
            &&& next == (FetchState {
                phase: FetchPhase::Usage,
                attempt: state.attempt,
                subscription: state.subscription,
                quota_config: state.quota_config,
            })
            &&& posts(action, console.personal_usage_api@, seq![])
        },
        _ => false,
    }
}

fn post_without_data<N, D, E>(api: &String) -> (r: FetchAction<N, D, E>)
    ensures
        posts(r, api@, seq![]),
{
    FetchAction::Post { api: api.clone(), data_parameters: JsonMap::new() }
}

/// What the subscription is looked up by.
pub fn subscription_parameters(region: &AlibabaTokenPlanRegion) -> (r: JsonMap)
    ensures
        r@ == seq![("commodityCode"@, JsonView::Text(region.product_code@))],
{
    let mut parameters: JsonMap = JsonMap::new();
    parameters.insert("commodityCode".to_string(), Json::Text(region.product_code.clone()));
    parameters
}

/// Whether a fetch begins in this state with this action: the subscription is
/// asked for, by the region's commodity.
pub open spec fn is_beginning<N, D, E>(
    console: ConsoleProfile,
    region: AlibabaTokenPlanRegion,
    state: FetchState,
    action: FetchAction<N, D, E>,
) -> bool {
    &&& state == FetchState::start()
    &&& posts(
        action,
        console.personal_subscription_api@,
        seq![("commodityCode"@, JsonView::Text(region.product_code@))],
    )
}

impl PersonalFetch {
    #[verifier::type_invariant]
    spec fn valid(self) -> bool {
        self@.well_formed()
    }

    /// What the fetch is waiting for.
    pub fn phase(&self) -> (r: FetchPhase)
        ensures
            r == self@.phase,
    {
        self.phase
    }

    /// How many answers about the usage had no windows.
    pub fn attempt(&self) -> (r: usize)
        ensures
            r == self@.attempt,
    {
        self.attempt
    }

    /// Whether the fetch is waiting for this kind of event.
    pub fn is_waiting_for<E>(&self, event: &FetchEvent<E>) -> (r: bool)
        ensures
            r == self@.awaits(*event),
    {
        match self.phase {
            FetchPhase::Subscription | FetchPhase::QuotaConfig | FetchPhase::Usage => matches!(
                event,
                FetchEvent::Posted(_)
            ),
            FetchPhase::Delay => matches!(event, FetchEvent::Slept),
            FetchPhase::Ended => false,
        }
    }

    /// Begins a fetch: the subscription is asked for.
    pub fn begin<N, D, E>(console: &ConsoleProfile, region: &AlibabaTokenPlanRegion) -> (r: (
        PersonalFetch,
        FetchAction<N, D, E>,
    ))
        ensures
            is_beginning(*console, *region, r.0@, r.1),
    {
        (
            PersonalFetch {
                phase: FetchPhase::Subscription,
                attempt: 0,
                subscription: None,
                quota_config: None,
            },
            FetchAction::Post {
                api: console.personal_subscription_api.clone(),
                data_parameters: subscription_parameters(region),
            },
        )
    }

    fn take_usage<S: ConsoleSupport, E>(self, support: &S, body: Vec<u8>) -> (r: (
        PersonalFetch,
        FetchAction<S::Number, S::Date, E>,
    ))
        requires
            self@.phase is Usage,
        ensures
            is_usage_step(*support, self@, body@, r.0@, r.1),
    {
        proof {
            use_type_invariant(&self);
        }
        let ghost state = self@;
        let subscription: Option<&[u8]> = match &self.subscription {
            Some(data) => Some(data.as_slice()),
            None => None,
        };
        let quota_config: Option<&[u8]> = match &self.quota_config {
            Some(data) => Some(data.as_slice()),
            None => None,
        };
        assert(bytes_view(subscription) == state.subscription);
        assert(bytes_view(quota_config) == state.quota_config);
        let parsed: Result<TokenPlanSnapshot<S::Number, S::Date>, ProviderError> =
            parse_personal_usage(support, body.as_slice(), subscription, quota_config);
        let ghost read = parsed;
        let windowless: bool = if parsed.is_err() {
            personal_usage_success_without_windows(support, body.as_slice())
        } else {
            false
        };
        let verdict: UsageVerdict<S::Number, S::Date> = judge_usage(
            self.attempt,
            parsed,
            windowless,
        );
        assert(is_verdict(state.attempt, read, windowless, verdict));
        match verdict {
            UsageVerdict::Retry => (
                PersonalFetch {
                    phase: FetchPhase::Delay,
                    attempt: self.attempt + 1,
                    subscription: self.subscription,
                    quota_config: self.quota_config,
                },
                FetchAction::Sleep { millis: RETRY_DELAY_MILLIS },
            ),
            UsageVerdict::Stop(outcome) => (
                PersonalFetch {
                    phase: FetchPhase::Ended,
                    attempt: self.attempt,
                    subscription: self.subscription,
                    quota_config: self.quota_config,
                },
                FetchAction::Finish(
                    match outcome {
                        Ok(snapshot) => Ok(snapshot),
                        Err(error) => Err(FetchFailure::Provider(error)),
                    },
                ),
            ),
        }
    }

    /// Goes on with the fetch after an event that it was waiting for.
    pub fn advance<S: ConsoleSupport, E>(
        self,
        support: &S,
        console: &ConsoleProfile,
        event: FetchEvent<E>,
    ) -> (r: (PersonalFetch, FetchAction<S::Number, S::Date, E>))
        requires
            self@.awaits(event),
        ensures
            is_step(*support, *console, self@, event, r.0@, r.1),
    {
        proof {
            use_type_invariant(&self);
        }
        match self.phase {
            FetchPhase::Subscription => {
                let subscription: Option<Vec<u8>> = match event {
                    FetchEvent::Posted(Ok(body)) => Some(body),
                    _ => None,
                };
                (
                    PersonalFetch {
                        phase: FetchPhase::QuotaConfig,
                        attempt: self.attempt,
                        subscription,
                        quota_config: self.quota_config,
                    },
                    post_without_data(&console.personal_quota_config_api),
                )
            },
            FetchPhase::QuotaConfig => {
                let quota_config: Option<Vec<u8>> = match event {
                    FetchEvent::Posted(Ok(body)) => Some(body),
                    _ => None,
                };
                (
                    PersonalFetch {
                        phase: FetchPhase::Usage,
                        attempt: self.attempt,
                        subscription: self.subscription,
                        quota_config,
                    },
                    post_without_data(&console.personal_usage_api),
                )
            },
            FetchPhase::Usage => match event {
                FetchEvent::Posted(Ok(body)) => self.take_usage(support, body),
                FetchEvent::Posted(Err(error)) => (
                    PersonalFetch {
                        phase: FetchPhase::Ended,
                        attempt: self.attempt,
                        subscription: self.subscription,
                        quota_config: self.quota_config,
                    },
                    FetchAction::Finish(Err(FetchFailure::Request(error))),
                ),
                FetchEvent::Slept => (self, post_without_data(&console.personal_usage_api)),
            },
            _ => (
                PersonalFetch {
                    phase: FetchPhase::Usage,
                    attempt: self.attempt,
                    subscription: self.subscription,
                    quota_config: self.quota_config,
                },
                post_without_data(&console.personal_usage_api),
            ),
        }
    }
}

} // verus!
