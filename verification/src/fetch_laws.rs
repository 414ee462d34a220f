//! What a whole fetch of the personal plan's usage comes to.

use crate::console::{AlibabaTokenPlanRegion, ConsoleProfile, ConsoleSupport};
use crate::error::{ErrorView, ProviderError};
use crate::json::JsonView;
use crate::personal_fetch::{
    body_of, follows_verdict, is_beginning, is_step, is_usage_step, is_verdict, unavailable, FetchAction,
    FetchEvent, FetchFailure, FetchOutcome, FetchState, UsageVerdict,
    MAX_USAGE_ATTEMPTS,
};
use crate::personal_laws::{
    lemma_windowless_read_alike, reads_alike, same_usage, usage_is_read_alike,
    windows_are_not_asked_for_again,
};
use crate::personal_usage::{is_parsed_usage, is_windowless_success_of, TokenPlanSnapshot};
use vstd::prelude::*;

verus! {

/// The course of a fetch from its beginning: the states that it goes through,
/// what happens in each, and what is done about it.
pub open spec fn is_run<S: ConsoleSupport, E>(
    support: S,
    console: ConsoleProfile,
    states: Seq<FetchState>,
    events: Seq<FetchEvent<E>>,
    actions: Seq<FetchAction<S::Number, S::Date, E>>,
) -> bool {
    &&& states.len() == events.len() + 1
    &&& actions.len() == events.len()
    &&& states[0] == FetchState::start()
    &&& forall|i: int|
        #![trigger events[i]]
        0 <= i < events.len() ==> is_step(
            support,
            console,
            states[i],
            events[i],
            states[i + 1],
            actions[i],
        )
}

/// The answers about the usage in a course, in order: every other event, after
/// the answers about the subscription and the quotas.
pub open spec fn usage_answers<E>(events: Seq<FetchEvent<E>>) -> Seq<Result<Vec<u8>, E>> {
    Seq::new(((events.len() - 1) / 2) as nat, |j: int| events[2 * j + 2]->Posted_0)
}

/// Whether `outcome` is what the answers about the usage come to, the first of
/// them after `attempt` others: the first one that can be read is the outcome;
/// successes without windows are passed over until there are too many; any
/// other failure stands. Nothing is asked for after that.
pub open spec fn comes_to<S: ConsoleSupport, E>(
    support: S,
    subscription: Option<Seq<u8>>,
    quota_config: Option<Seq<u8>>,
    attempt: nat,
    answers: Seq<Result<Vec<u8>, E>>,
    outcome: FetchOutcome<S::Number, S::Date, E>,
) -> bool
    decreases answers.len(),
{
    answers.len() > 0 && match answers[0] {
        Err(error) => answers.len() == 1 && outcome == Err::<
            TokenPlanSnapshot<S::Number, S::Date>,
            FetchFailure<E>,
        >(FetchFailure::Request(error)),
        Ok(body) => exists|parsed: Result<TokenPlanSnapshot<S::Number, S::Date>, ProviderError>|
            #[trigger] is_parsed_usage(support, body@, subscription, quota_config, parsed)
                && match parsed {
                Ok(snapshot) => answers.len() == 1 && outcome == Ok::<
                    TokenPlanSnapshot<S::Number, S::Date>,
                    FetchFailure<E>,
                >(snapshot),
                Err(error) => exists|windowless: bool|
                    #[trigger] is_windowless_success_of(support, body@, windowless) && (
                    if !windowless {
                        answers.len() == 1 && outcome == Err::<
                            TokenPlanSnapshot<S::Number, S::Date>,
                            FetchFailure<E>,
                        >(FetchFailure::Provider(error))
                    } else if attempt + 1 >= MAX_USAGE_ATTEMPTS {
                        answers.len() == 1 && is_unavailable(outcome)
                    } else {
                        comes_to(
                            support,
                            subscription,
                            quota_config,
                            attempt + 1,
                            answers.skip(1),
                            outcome,
                        )
                    }),
            },
    }
}

/// Whether a fetch has ended because no answer had a usage window.
pub open spec fn is_unavailable<N, D, E>(outcome: FetchOutcome<N, D, E>) -> bool {
    match outcome {
        Err(FetchFailure::Provider(error)) => error@ == unavailable(),
        _ => false,
    }
}

/// From an answer about the usage on.
proof fn lemma_run_from<S: ConsoleSupport, E>(
    support: S,
    console: ConsoleProfile,
    states: Seq<FetchState>,
    events: Seq<FetchEvent<E>>,
    actions: Seq<FetchAction<S::Number, S::Date, E>>,
    j: nat,
)
    requires
        is_run(support, console, states, events, actions),
        states.last().phase is Ended,
        2 * j + 2 < states.len(),
        states[2 * j as int + 2].phase is Usage,
        states[2 * j as int + 2].attempt == j,
        j < MAX_USAGE_ATTEMPTS,
    ensures
        events.len() >= 2 * j + 3,
        events.len() % 2 == 1,
        actions.last() is Finish,
        comes_to(
            support,
            states[2 * j as int + 2].subscription,
            states[2 * j as int + 2].quota_config,
            j,
            usage_answers(events).skip(j as int),
            actions.last()->Finish_0,
        ),
    decreases MAX_USAGE_ATTEMPTS - j,
{
    let at = 2 * j as int + 2;
    let state = states[at];
    let next = states[at + 1];
    assert(at < events.len());
    assert(is_step(support, console, state, events[at], next, actions[at]));
    if next.phase is Ended {
        assert(events.len() == at + 1) by {
            if events.len() > at + 1 {
                assert(is_step(
                    support,
                    console,
                    next,
                    events[at + 1],
                    states[at + 2],
                    actions[at + 1],
                ));
            }
        }
        let answers = usage_answers(events).skip(j as int);
        assert(answers.len() == 1);
        assert(answers[0] == events[at]->Posted_0);
    } else {
        assert(next.phase is Delay);
        assert(at + 1 < events.len());
        assert(is_step(
            support,
            console,
            next,
            events[at + 1],
            states[at + 2],
            actions[at + 1],
        ));
        assert(states[2 * (j as int + 1) + 2].phase is Usage);
        lemma_run_from(support, console, states, events, actions, j + 1);
        let answers = usage_answers(events).skip(j as int);
        assert(answers[0] == events[at]->Posted_0);
        assert(answers.skip(1) =~= usage_answers(events).skip(j as int + 1));
        let body = events[at]->Posted_0->Ok_0;
        assert(is_usage_step(support, state, body@, next, actions[at]));
        let (parsed, windowless, verdict) = choose|
            parsed: Result<TokenPlanSnapshot<S::Number, S::Date>, ProviderError>,
            windowless: bool,
            verdict: UsageVerdict<S::Number, S::Date>,
        |
            #[trigger] is_parsed_usage(
                support,
                body@,
                state.subscription,
                state.quota_config,
                parsed,
            ) && (parsed is Err ==> is_windowless_success_of(support, body@, windowless))
                && #[trigger] is_verdict(state.attempt, parsed, windowless, verdict)
                && follows_verdict(state, verdict, next, actions[at]);
        assert(verdict is Retry);
        assert(parsed is Err && windowless);
        assert(is_windowless_success_of(support, body@, windowless));
    }
}

/// A fetch that has ended has asked for the subscription, for the quotas, and
/// for the usage as often as it took, and its outcome is what the answers about
/// the usage come to.
pub proof fn fetches_come_to_their_outcome<S: ConsoleSupport, E>(
    support: S,
    console: ConsoleProfile,
    states: Seq<FetchState>,
    events: Seq<FetchEvent<E>>,
    actions: Seq<FetchAction<S::Number, S::Date, E>>,
)
    requires
        is_run(support, console, states, events, actions),
        states.last().phase is Ended,
    ensures
        events.len() == 2 * usage_answers(events).len() + 1,
        events[0] is Posted,
        events[1] is Posted,
        actions.last() is Finish,
        comes_to(
            support,
            body_of(events[0]->Posted_0),
            body_of(events[1]->Posted_0),
            0,
            usage_answers(events),
            actions.last()->Finish_0,
        ),
{
    assert(states.len() > 1);
    assert(is_step(support, console, states[0], events[0], states[1], actions[0]));
    assert(states.len() > 2);
    assert(is_step(support, console, states[1], events[1], states[2], actions[1]));
    assert(states[2].phase is Usage);
    lemma_run_from(support, console, states, events, actions, 0);
    assert(usage_answers(events).skip(0) =~= usage_answers(events));
}

proof fn lemma_readable<S: ConsoleSupport, E>(
    support: S,
    subscription: Option<Seq<u8>>,
    quota_config: Option<Seq<u8>>,
    attempt: nat,
    answers: Seq<Result<Vec<u8>, E>>,
    outcome: FetchOutcome<S::Number, S::Date, E>,
    k: int,
    snapshot: TokenPlanSnapshot<S::Number, S::Date>,
)
    requires
        reads_alike(support),
        comes_to(support, subscription, quota_config, attempt, answers, outcome),
        0 <= k < answers.len(),
        answers[k] is Ok,
        is_parsed_usage(support, answers[k]->Ok_0@, subscription, quota_config, Ok(snapshot)),
    ensures
        answers.len() == k + 1,
        outcome is Ok,
        is_parsed_usage(
            support,
            answers[k]->Ok_0@,
            subscription,
            quota_config,
            Ok(outcome->Ok_0),
        ),
        same_usage(Ok(outcome->Ok_0), Ok(snapshot)),
    decreases answers.len(),
{
    let body = answers[0]->Ok_0;
    let parsed = choose|parsed: Result<TokenPlanSnapshot<S::Number, S::Date>, ProviderError>|
        #[trigger] is_parsed_usage(support, body@, subscription, quota_config, parsed)
            && match parsed {
            Ok(s) => answers.len() == 1 && outcome == Ok::<
                TokenPlanSnapshot<S::Number, S::Date>,
                FetchFailure<E>,
            >(s),
            Err(error) => exists|windowless: bool|
                #[trigger] is_windowless_success_of(support, body@, windowless) && (
                if !windowless {
                    answers.len() == 1 && outcome == Err::<
                        TokenPlanSnapshot<S::Number, S::Date>,
                        FetchFailure<E>,
                    >(FetchFailure::Provider(error))
                } else if attempt + 1 >= MAX_USAGE_ATTEMPTS {
                    answers.len() == 1 && is_unavailable(outcome)
                } else {
                    comes_to(
                        support,
                        subscription,
                        quota_config,
                        attempt + 1,
                        answers.skip(1),
                        outcome,
                    )
                }),
        };
    if k == 0 {
        usage_is_read_alike(
            support,
            body@,
            (subscription, subscription),
            (quota_config, quota_config),
            parsed,
            Ok(snapshot),
        );
    } else {
        assert(answers.skip(1)[k - 1] == answers[k]);
        lemma_readable(
            support,
            subscription,
            quota_config,
            attempt + 1,
            answers.skip(1),
            outcome,
            k - 1,
            snapshot,
        );
    }
}

/// The first answer about the usage that can be read ends the fetch, and what it
/// comes to with the answers about the subscription and the quotas is the
/// outcome.
pub proof fn first_readable_usage_is_the_outcome<S: ConsoleSupport, E>(
    support: S,
    subscription: Option<Seq<u8>>,
    quota_config: Option<Seq<u8>>,
    answers: Seq<Result<Vec<u8>, E>>,
    outcome: FetchOutcome<S::Number, S::Date, E>,
    k: int,
    snapshot: TokenPlanSnapshot<S::Number, S::Date>,
)
    requires
        reads_alike(support),
        comes_to(support, subscription, quota_config, 0, answers, outcome),
        0 <= k < answers.len(),
        answers[k] is Ok,
        is_parsed_usage(support, answers[k]->Ok_0@, subscription, quota_config, Ok(snapshot)),
    ensures
        answers.len() == k + 1,
        outcome is Ok,
        is_parsed_usage(
            support,
            answers[k]->Ok_0@,
            subscription,
            quota_config,
            Ok(outcome->Ok_0),
        ),
        same_usage(Ok(outcome->Ok_0), Ok(snapshot)),
{
    lemma_readable(support, subscription, quota_config, 0, answers, outcome, k, snapshot);
}

proof fn lemma_windowless<S: ConsoleSupport, E>(
    support: S,
    subscription: Option<Seq<u8>>,
    quota_config: Option<Seq<u8>>,
    attempt: nat,
    answers: Seq<Result<Vec<u8>, E>>,
    outcome: FetchOutcome<S::Number, S::Date, E>,
)
    requires
        reads_alike(support),
        attempt < MAX_USAGE_ATTEMPTS,
        comes_to(support, subscription, quota_config, attempt, answers, outcome),
        forall|i: int|
            0 <= i < answers.len() ==> (#[trigger] answers[i]) is Ok && is_windowless_success_of(
                support,
                answers[i]->Ok_0@,
                true,
            ),
    ensures
        answers.len() == MAX_USAGE_ATTEMPTS - attempt,
        is_unavailable(outcome),
    decreases answers.len(),
{
    let body = answers[0]->Ok_0;
    assert(is_windowless_success_of(support, body@, true));
    assert forall|snapshot: TokenPlanSnapshot<S::Number, S::Date>|
        !(#[trigger] is_parsed_usage(
            support,
            body@,
            subscription,
            quota_config,
            Ok::<TokenPlanSnapshot<S::Number, S::Date>, ProviderError>(snapshot),
        )) by {
        if is_parsed_usage(
            support,
            body@,
            subscription,
            quota_config,
            Ok::<TokenPlanSnapshot<S::Number, S::Date>, ProviderError>(snapshot),
        ) {
            windows_are_not_asked_for_again(
                support,
                body@,
                subscription,
                quota_config,
                snapshot,
                true,
            );
        }
    }
    if is_windowless_success_of(support, body@, false) {
        lemma_windowless_read_alike(support, body@, true, false);
    }
    if attempt + 1 < MAX_USAGE_ATTEMPTS {
        let rest = answers.skip(1);
        assert forall|i: int| 0 <= i < rest.len() implies (#[trigger] rest[i]) is Ok
            && is_windowless_success_of(support, rest[i]->Ok_0@, true) by {
            assert(rest[i] == answers[i + 1]);
        }
        lemma_windowless(support, subscription, quota_config, attempt + 1, rest, outcome);
    }
}

/// Where every answer about the usage is a success without windows, the usage is
/// asked for as often as it may be, and is then said to be unavailable for now.
pub proof fn windowless_answers_are_unavailable<S: ConsoleSupport, E>(
    support: S,
    subscription: Option<Seq<u8>>,
    quota_config: Option<Seq<u8>>,
    answers: Seq<Result<Vec<u8>, E>>,
    outcome: FetchOutcome<S::Number, S::Date, E>,
)
    requires
        reads_alike(support),
        comes_to(support, subscription, quota_config, 0, answers, outcome),
        forall|i: int|
            0 <= i < answers.len() ==> (#[trigger] answers[i]) is Ok && is_windowless_success_of(
                support,
                answers[i]->Ok_0@,
                true,
            ),
    ensures
        answers.len() == MAX_USAGE_ATTEMPTS,
        is_unavailable(outcome),
{
    lemma_windowless(support, subscription, quota_config, 0, answers, outcome);
}

proof fn lemma_other_failure<S: ConsoleSupport, E>(
    support: S,
    subscription: Option<Seq<u8>>,
    quota_config: Option<Seq<u8>>,
    attempt: nat,
    answers: Seq<Result<Vec<u8>, E>>,
    outcome: FetchOutcome<S::Number, S::Date, E>,
    k: int,
    error: ProviderError,
)
    requires
        reads_alike(support),
        comes_to(support, subscription, quota_config, attempt, answers, outcome),
        0 <= k < answers.len(),
        answers[k] is Ok,
        is_parsed_usage(support, answers[k]->Ok_0@, subscription, quota_config, Err(error)),
        is_windowless_success_of(support, answers[k]->Ok_0@, false),
    ensures
        answers.len() == k + 1,
        outcome matches Err(FetchFailure::Provider(e)) && e@ == error@,
    decreases answers.len(),
{
    let body = answers[0]->Ok_0;
    if k == 0 {
        assert forall|parsed: Result<TokenPlanSnapshot<S::Number, S::Date>, ProviderError>|
            #[trigger] is_parsed_usage(
                support,
                body@,
                subscription,
                quota_config,
                parsed,
            ) implies same_usage(parsed, Err(error)) by {
            usage_is_read_alike(
                support,
                body@,
                (subscription, subscription),
                (quota_config, quota_config),
                parsed,
                Err(error),
            );
        }
        if is_windowless_success_of(support, body@, true) {
            lemma_windowless_read_alike(support, body@, true, false);
        }
    } else {
        assert(answers.skip(1)[k - 1] == answers[k]);
        lemma_other_failure(
            support,
            subscription,
            quota_config,
            attempt + 1,
            answers.skip(1),
            outcome,
            k - 1,
            error,
        );
    }
}

/// A failure to read an answer about the usage stands, unless the answer is a
/// success without windows: it ends the fetch, and is its outcome.
pub proof fn other_failures_stand<S: ConsoleSupport, E>(
    support: S,
    subscription: Option<Seq<u8>>,
    quota_config: Option<Seq<u8>>,
    answers: Seq<Result<Vec<u8>, E>>,
    outcome: FetchOutcome<S::Number, S::Date, E>,
    k: int,
    error: ProviderError,
)
    requires
        reads_alike(support),
        comes_to(support, subscription, quota_config, 0, answers, outcome),
        0 <= k < answers.len(),
        answers[k] is Ok,
        is_parsed_usage(support, answers[k]->Ok_0@, subscription, quota_config, Err(error)),
        is_windowless_success_of(support, answers[k]->Ok_0@, false),
    ensures
        answers.len() == k + 1,
        outcome matches Err(FetchFailure::Provider(e)) && e@ == error@,
{
    lemma_other_failure(support, subscription, quota_config, 0, answers, outcome, k, error);
}

proof fn lemma_failed_request<S: ConsoleSupport, E>(
    support: S,
    subscription: Option<Seq<u8>>,
    quota_config: Option<Seq<u8>>,
    attempt: nat,
    answers: Seq<Result<Vec<u8>, E>>,
    outcome: FetchOutcome<S::Number, S::Date, E>,
    k: int,
)
    requires
        comes_to(support, subscription, quota_config, attempt, answers, outcome),
        0 <= k < answers.len(),
        answers[k] is Err,
    ensures
        answers.len() == k + 1,
        outcome matches Err(FetchFailure::Request(e)) && e == answers[k]->Err_0,
    decreases answers.len(),
{
    if k > 0 {
        assert(answers.skip(1)[k - 1] == answers[k]);
        lemma_failed_request(
            support,
            subscription,
            quota_config,
            attempt + 1,
            answers.skip(1),
            outcome,
            k - 1,
        );
    }
}

/// A request for the usage that fails ends the fetch, with that failure.
pub proof fn failed_usage_requests_stand<S: ConsoleSupport, E>(
    support: S,
    subscription: Option<Seq<u8>>,
    quota_config: Option<Seq<u8>>,
    answers: Seq<Result<Vec<u8>, E>>,
    outcome: FetchOutcome<S::Number, S::Date, E>,
    k: int,
)
    requires
        comes_to(support, subscription, quota_config, 0, answers, outcome),
        0 <= k < answers.len(),
        answers[k] is Err,
    ensures
        answers.len() == k + 1,
        outcome matches Err(FetchFailure::Request(e)) && e == answers[k]->Err_0,
{
    lemma_failed_request(support, subscription, quota_config, 0, answers, outcome, k);
}

/// Whether the action asks for the API, with no data.
pub open spec fn asks_for<N, D, E>(action: FetchAction<N, D, E>, api: Seq<char>) -> bool {
    match action {
        FetchAction::Post { api: a, data_parameters } => a@ == api && data_parameters@.len() == 0,
        _ => false,
    }
}

/// A fetch begins by asking for the subscription, by the region's commodity and
/// nothing else, with no answer yet.
pub proof fn fetches_begin_with_the_subscription<N, D, E>(
    console: ConsoleProfile,
    region: AlibabaTokenPlanRegion,
    state: FetchState,
    action: FetchAction<N, D, E>,
)
    requires
        is_beginning(console, region, state, action),
    ensures
        state.phase is Subscription,
        state.attempt == 0,
        state.subscription is None,
        state.quota_config is None,
        action matches FetchAction::Post { api, data_parameters } && {
            &&& api@ == console.personal_subscription_api@
            &&& data_parameters@.len() == 1
            &&& data_parameters@[0] == ("commodityCode"@, JsonView::Text(region.product_code@))
        },
{
}

/// After the subscription the quotas are asked for, then the usage, and the usage
/// again after each delay.
pub proof fn apis_are_asked_for_in_order<S: ConsoleSupport, E>(
    support: S,
    console: ConsoleProfile,
    state: FetchState,
    event: FetchEvent<E>,
    next: FetchState,
    action: FetchAction<S::Number, S::Date, E>,
)
    requires
        is_step(support, console, state, event, next, action),
    ensures
        state.phase is Subscription ==> next.phase is QuotaConfig && asks_for(
            action,
            console.personal_quota_config_api@,
        ),
        state.phase is QuotaConfig ==> next.phase is Usage && asks_for(
            action,
            console.personal_usage_api@,
        ),
        state.phase is Delay ==> next.phase is Usage && next.attempt == state.attempt && asks_for(
            action,
            console.personal_usage_api@,
        ),
        state.phase is Usage ==> !(action is Post),
        !(state.phase is Ended),
{
}

/// The answers about the subscription and the quotas are kept as they came, or
/// as missing, to the end of the fetch.
pub proof fn answers_are_kept<S: ConsoleSupport, E>(
    support: S,
    console: ConsoleProfile,
    state: FetchState,
    event: FetchEvent<E>,
    next: FetchState,
    action: FetchAction<S::Number, S::Date, E>,
)
    requires
        is_step(support, console, state, event, next, action),
    ensures
        state.phase is Subscription ==> next.quota_config == state.quota_config && match event {
            FetchEvent::Posted(Ok(body)) => next.subscription == Some(body@),
            _ => next.subscription is None,
        },
        state.phase is QuotaConfig ==> next.subscription == state.subscription && match event {
            FetchEvent::Posted(Ok(body)) => next.quota_config == Some(body@),
            _ => next.quota_config is None,
        },
        state.phase is Usage || state.phase is Delay ==> next.subscription == state.subscription
            && next.quota_config == state.quota_config,
{
}

/// Between two requests for the usage a fetch waits four tenths of a second.
pub proof fn delays_are_short<S: ConsoleSupport, E>(
    support: S,
    console: ConsoleProfile,
    state: FetchState,
    event: FetchEvent<E>,
    next: FetchState,
    action: FetchAction<S::Number, S::Date, E>,
)
    requires
        is_step(support, console, state, event, next, action),
    ensures
        action matches FetchAction::Sleep { millis } ==> millis == 400,
        action is Sleep <==> next.phase is Delay,
{
}

/// A whole fetch whose answers about the usage are all successes without windows
/// asks three times, and then says that the usage is unavailable for now.
pub proof fn fetches_give_up_after_three_times<S: ConsoleSupport, E>(
    support: S,
    console: ConsoleProfile,
    states: Seq<FetchState>,
    events: Seq<FetchEvent<E>>,
    actions: Seq<FetchAction<S::Number, S::Date, E>>,
)
    requires
        reads_alike(support),
        is_run(support, console, states, events, actions),
        states.last().phase is Ended,
        forall|i: int|
            0 <= i < usage_answers(events).len() ==> (#[trigger] usage_answers(events)[i]) is Ok
                && is_windowless_success_of(support, usage_answers(events)[i]->Ok_0@, true),
    ensures
        usage_answers(events).len() == 3,
        events.len() == 7,
        actions.last() matches FetchAction::Finish(Err(FetchFailure::Provider(error))) && error@
            == ErrorView::Other(
            "Alibaba Token Plan usage is temporarily unavailable; it will refresh automatically."@,
        ),
{
    fetches_come_to_their_outcome(support, console, states, events, actions);
    windowless_answers_are_unavailable(
        support,
        body_of(events[0]->Posted_0),
        body_of(events[1]->Posted_0),
        usage_answers(events),
        actions.last()->Finish_0,
    );
}

/// A whole fetch whose last answer about the usage can be read comes to what that
/// answer comes to, with the answers about the subscription and the quotas that
/// came before.
pub proof fn fetches_come_to_what_the_usage_says<S: ConsoleSupport, E>(
    support: S,
    console: ConsoleProfile,
    states: Seq<FetchState>,
    events: Seq<FetchEvent<E>>,
    actions: Seq<FetchAction<S::Number, S::Date, E>>,
    snapshot: TokenPlanSnapshot<S::Number, S::Date>,
)
    requires
        reads_alike(support),
        is_run(support, console, states, events, actions),
        states.last().phase is Ended,
        usage_answers(events).last() is Ok,
        is_parsed_usage(
            support,
            usage_answers(events).last()->Ok_0@,
            match events[0] {
                FetchEvent::Posted(Ok(body)) => Some(body@),
                _ => None,
            },
            match events[1] {
                FetchEvent::Posted(Ok(body)) => Some(body@),
                _ => None,
            },
            Ok(snapshot),
        ),
    ensures
        actions.last() matches FetchAction::Finish(Ok(outcome)) && same_usage(
            Ok(outcome),
            Ok(snapshot),
        ) && is_parsed_usage(
            support,
            usage_answers(events).last()->Ok_0@,
            match events[0] {
                FetchEvent::Posted(Ok(body)) => Some(body@),
                _ => None,
            },
            match events[1] {
                FetchEvent::Posted(Ok(body)) => Some(body@),
                _ => None,
            },
            Ok(outcome),
        ),
{
    fetches_come_to_their_outcome(support, console, states, events, actions);
    let answers = usage_answers(events);
    first_readable_usage_is_the_outcome(
        support,
        body_of(events[0]->Posted_0),
        body_of(events[1]->Posted_0),
        answers,
        actions.last()->Finish_0,
        answers.len() - 1,
        snapshot,
    );
}

} // verus!
