//! Selection of a host from the pool.
//!
//! The hosts are tried in priority order: the primary hosts in the order
//! of their declaration, then the fallback hosts. A host qualifies where
//! it is reachable and, where a model is required, lists that model. The
//! first host that qualifies is selected.
//!
//! The selection is given twice: as a function of what every host
//! answers, and as a state machine that asks one question at a time, so
//! that no host is asked once one is selected.

use vstd::prelude::*;
use crate::ollama::{has_model, lists_model, OllamaModel};
use crate::text::{as_index, opt_chars};

verus! {

/// What a host answers: whether it is reachable, and its models where it
/// lists them.
#[derive(Debug)]
pub struct HostAnswer {
    pub reachable: bool,
    pub models: Option<Vec<OllamaModel>>,
}

/// The host qualifies: it is reachable and, where a model is required,
/// lists that model.
pub open spec fn qualifies(answer: HostAnswer, required: Option<Seq<char>>) -> bool {
    answer.reachable && match required {
        Some(model) => match answer.models {
            Some(list) => lists_model(list@, model),
            None => false,
        },
        None => true,
    }
}

/// The first host at or after `from` that qualifies.
pub open spec fn first_qualifying(
    answers: Seq<HostAnswer>,
    required: Option<Seq<char>>,
    from: int,
) -> Option<int>
    decreases answers.len() - from,
{
    if from < 0 || from >= answers.len() {
        None
    } else if qualifies(answers[from], required) {
        Some(from)
    } else {
        first_qualifying(answers, required, from + 1)
    }
}

/// The selected host qualifies and no host before it does; where none is
/// selected, no host qualifies.
pub proof fn lemma_first_qualifying(
    answers: Seq<HostAnswer>,
    required: Option<Seq<char>>,
    from: int,
)
    requires
        0 <= from,
    ensures
        match first_qualifying(answers, required, from) {
            Some(i) => from <= i < answers.len() && qualifies(answers[i], required) && forall|
                j: int,
            | from <= j < i ==> !qualifies(#[trigger] answers[j], required),
            None => forall|j: int|
                from <= j < answers.len() ==> !qualifies(#[trigger] answers[j], required),
        },
    decreases answers.len() - from,
{
    if from < answers.len() && !qualifies(answers[from], required) {
        lemma_first_qualifying(answers, required, from + 1);
    }
}

/// Whether a host with this answer qualifies.
pub fn try_host(answer: &HostAnswer, required_model: Option<&str>) -> (b: bool)
    ensures
        b == qualifies(*answer, opt_chars(required_model)),
{
    if !answer.reachable {
        return false;
    }
    match required_model {
        Some(model) => match &answer.models {
            Some(list) => has_model(list, model),
            None => false,
        },
        None => true,
    }
}

/// Selects the first host that qualifies, given the answers of the hosts
/// in priority order. `None` says that no host is suitable.
pub fn select_host(answers: &Vec<HostAnswer>, required_model: Option<&str>) -> (r: Option<usize>)
    ensures
        as_index(r) == first_qualifying(answers@, opt_chars(required_model), 0),
{
    let mut i: usize = 0;
    while i < answers.len()
        invariant
            i <= answers.len(),
            first_qualifying(answers@, opt_chars(required_model), 0) == first_qualifying(
                answers@,
                opt_chars(required_model),
                i as int,
            ),
        decreases answers.len() - i,
    {
        if try_host(&answers[i], required_model) {
            return Some(i);
        }
        i = i + 1;
    }
    None
}

/// Where a resolution stands.
#[derive(Debug, Clone, Copy, PartialEq, Eq, Structural)]
pub enum Resolution {
    /// The host at this position is to be probed.
    Probing(usize),
    /// The host at this position is reachable; its models are to be
    /// listed.
    Listing(usize),
    /// The host at this position is selected.
    Selected(usize),
    /// No host is suitable.
    NotFound,
}

/// What came of the question that a resolution asked.
#[derive(Debug)]
pub enum HostEvent {
    /// The probe is done.
    Probed { reachable: bool },
    /// The host listed its models.
    Listed { models: Vec<OllamaModel> },
    /// The host did not list its models.
    ListFailed,
}

/// The state at the start of a resolution over `candidates` hosts.
pub open spec fn initial(candidates: usize) -> Resolution {
    if candidates > 0 {
        Resolution::Probing(0)
    } else {
        Resolution::NotFound
    }
}

/// The state after the host at position `i` did not qualify.
pub open spec fn after_miss(i: usize, candidates: usize) -> Resolution {
    if i + 1 < candidates {
        Resolution::Probing((i + 1) as usize)
    } else {
        Resolution::NotFound
    }
}

/// The state after an event. A probed host that is not reachable is
/// passed over; one that is reachable is selected, or asked for its
/// models where a model is required. A host that lists the required model
/// is selected; one that does not, or does not list at all, is passed
/// over. An event that answers no question of the state changes nothing.
pub open spec fn next(
    state: Resolution,
    event: HostEvent,
    candidates: usize,
    required: Option<Seq<char>>,
) -> Resolution {
    match state {
        Resolution::Probing(i) => match event {
            HostEvent::Probed { reachable } => if !reachable {
                after_miss(i, candidates)
            } else if required is Some {
                Resolution::Listing(i)
            } else {
                Resolution::Selected(i)
            },
            _ => state,
        },
        Resolution::Listing(i) => match event {
            HostEvent::Listed { models } => if required is Some && lists_model(
                models@,
                required->0,
            ) {
                Resolution::Selected(i)
            } else {
                after_miss(i, candidates)
            },
            HostEvent::ListFailed => after_miss(i, candidates),
            _ => state,
        },
        _ => state,
    }
}

/// The state at the start of a resolution.
pub fn start(candidates: usize) -> (state: Resolution)
    ensures
        state == initial(candidates),
{
    if candidates > 0 {
        Resolution::Probing(0)
    } else {
        Resolution::NotFound
    }
}

fn miss(i: usize, candidates: usize) -> (state: Resolution)
    ensures
        state == after_miss(i, candidates),
{
    if i < candidates && i + 1 < candidates {
        Resolution::Probing(i + 1)
    } else {
        Resolution::NotFound
    }
}

/// Advances a resolution by one event.
pub fn advance(
    state: Resolution,
    event: &HostEvent,
    candidates: usize,
    required_model: Option<&str>,
) -> (r: Resolution)
    ensures
        r == next(state, *event, candidates, opt_chars(required_model)),
{
    match state {
        Resolution::Probing(i) => match event {
            HostEvent::Probed { reachable } => {
                if !*reachable {
                    miss(i, candidates)
                } else if required_model.is_some() {
                    Resolution::Listing(i)
                } else {
                    Resolution::Selected(i)
                }
            },
            _ => state,
        },
        Resolution::Listing(i) => match event {
            HostEvent::Listed { models } => {
                let found = match required_model {
                    Some(model) => has_model(models, model),
                    None => false,
                };
                if found {
                    Resolution::Selected(i)
                } else {
                    miss(i, candidates)
                }
            },
            HostEvent::ListFailed => miss(i, candidates),
            _ => state,
        },
        _ => state,
    }
}

/// The event with which the hosts answer the question of a state.
pub open spec fn answer_to(state: Resolution, answers: Seq<HostAnswer>) -> HostEvent {
    match state {
        Resolution::Listing(i) => match answers[i as int].models {
            Some(list) => HostEvent::Listed { models: list },
            None => HostEvent::ListFailed,
        },
        Resolution::Probing(i) => HostEvent::Probed { reachable: answers[i as int].reachable },
        _ => HostEvent::ListFailed,
    }
}

/// How many questions a resolution in this state can still ask.
pub open spec fn questions_left(state: Resolution, candidates: usize) -> nat {
    match state {
        Resolution::Probing(i) => if i < candidates {
            (2 * (candidates - i)) as nat
        } else {
            0
        },
        Resolution::Listing(i) => if i < candidates {
            (2 * (candidates - i) - 1) as nat
        } else {
            0
        },
        _ => 0,
    }
}

/// The state is in range: it asks about a host that exists.
pub open spec fn in_range(state: Resolution, candidates: usize) -> bool {
    match state {
        Resolution::Probing(i) => i < candidates,
        Resolution::Listing(i) => i < candidates,
        Resolution::Selected(i) => i < candidates,
        Resolution::NotFound => true,
    }
}

/// The state in which a resolution ends where the hosts answer as given.
pub open spec fn outcome(
    state: Resolution,
    answers: Seq<HostAnswer>,
    required: Option<Seq<char>>,
) -> Resolution
    decreases questions_left(state, answers.len() as usize),
{
    let candidates = answers.len() as usize;
    if answers.len() > usize::MAX || !in_range(state, candidates) {
        state
    } else {
        match state {
            Resolution::Probing(_) => outcome(
                next(state, answer_to(state, answers), candidates, required),
                answers,
                required,
            ),
            Resolution::Listing(_) => outcome(
                next(state, answer_to(state, answers), candidates, required),
                answers,
                required,
            ),
            _ => state,
        }
    }
}

/// The state that stands for a selection.
pub open spec fn resolved(choice: Option<int>) -> Resolution {
    match choice {
        Some(i) => Resolution::Selected(i as usize),
        None => Resolution::NotFound,
    }
}

proof fn lemma_outcome_from(
    state: Resolution,
    answers: Seq<HostAnswer>,
    required: Option<Seq<char>>,
)
    requires
        answers.len() <= usize::MAX,
        match state {
            Resolution::Probing(i) => i < answers.len(),
            Resolution::Listing(i) => i < answers.len() && answers[i as int].reachable
                && required is Some,
            _ => false,
        },
    ensures
        outcome(state, answers, required) == resolved(
            first_qualifying(
                answers,
                required,
                match state {
                    Resolution::Probing(i) => i as int,
                    Resolution::Listing(i) => i as int,
                    _ => 0,
                },
            ),
        ),
    decreases questions_left(state, answers.len() as usize),
{
    let candidates = answers.len() as usize;
    let following = next(state, answer_to(state, answers), candidates, required);
    match state {
        Resolution::Probing(i) => {
            if !answers[i as int].reachable {
                if i + 1 < candidates {
                    lemma_outcome_from(following, answers, required);
                } else {
                    assert(first_qualifying(answers, required, i + 1) is None);
                }
            } else if required is Some {
                lemma_outcome_from(following, answers, required);
            }
        },
        Resolution::Listing(i) => {
            if !qualifies(answers[i as int], required) {
                if i + 1 < candidates {
                    lemma_outcome_from(following, answers, required);
                } else {
                    assert(first_qualifying(answers, required, i + 1) is None);
                }
            }
        },
        _ => {},
    }
}

/// A resolution that asks the hosts one question at a time ends with the
/// first host, in priority order, that qualifies, and with no host where
/// none does.
pub proof fn lemma_resolution_selects_first(
    answers: Seq<HostAnswer>,
    required: Option<Seq<char>>,
)
    requires
        answers.len() <= usize::MAX,
    ensures
        outcome(initial(answers.len() as usize), answers, required) == resolved(
            first_qualifying(answers, required, 0),
        ),
{
    if answers.len() > 0 {
        lemma_outcome_from(Resolution::Probing(0), answers, required);
    }
}

} // verus!
