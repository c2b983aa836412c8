//! The combo request pipeline as a state machine. The caller performs each
//! action (store queries, spawning and joining the bottoms fetch) and hands
//! the outcome back as an event; the machine decides what comes next.
use crate::random::uniform_below;
use crate::sampler::{sample, total_weight, SampleError};
use crate::wardrobe::{weight_in, Category, ComboError, ItemId, Pairing, WeightTable};
use vstd::prelude::*;

verus! {

/// Where a request stands.
#[derive(Debug)]
pub enum Phase {
    /// Waiting for the identity of the requesting user.
    Start,
    /// The bottoms fetch runs in the background; waiting for the tops.
    AwaitingTops,
    /// A top is chosen; waiting for its recorded preferences.
    AwaitingPreferences { top: ItemId },
    /// Waiting for the background bottoms fetch to be joined.
    AwaitingBottoms { top: ItemId, table: WeightTable },
    /// The request is over, delivered or failed.
    Finished,
}

/// What the caller learnt from the last action. `None` stands for a failed
/// store query or an abnormally ended background task.
#[derive(Debug)]
pub enum Event {
    Identified(bool),
    TopsFetched(Option<Vec<ItemId>>),
    PreferencesFetched(Option<WeightTable>),
    BottomsJoined(Option<Vec<ItemId>>),
}

/// What the caller is to do next.
#[derive(Clone, Copy, Debug, PartialEq, Eq, Structural)]
pub enum Action {
    /// Spawn the eligible-bottoms fetch, then fetch the eligible tops.
    SpawnBottomsAndFetchTops,
    /// Fetch the recorded preferences of this top.
    FetchPreferences(ItemId),
    /// Join the background bottoms fetch.
    JoinBottoms,
    /// Deliver the pairing; the request is over.
    Deliver(Pairing),
    /// Report the failure; the request is over, and a still running bottoms
    /// fetch is abandoned.
    Fail(ComboError),
}

/// Chooses one top uniformly at random.
pub fn choose_top(tops: &Vec<ItemId>) -> (r: Result<ItemId, ComboError>)
    ensures
        tops@.len() == 0 <==> r == Err::<ItemId, ComboError>(
            ComboError::EmptyWardrobe(Category::Top),
        ),
        tops@.len() > 0 <==> r is Ok,
        r is Ok ==> tops@.contains(r->Ok_0),
{
    if tops.len() == 0 {
        return Err(ComboError::EmptyWardrobe(Category::Top));
    }
    let i = uniform_below(tops.len() as u64) as usize;
    Ok(tops[i])
}

/// Draws the bottom to pair with `top` from the eligible bottoms, weighted by
/// the top's preferences.
pub fn choose_bottom(top: ItemId, bottoms: &Vec<ItemId>, table: &WeightTable) -> (r: Result<
    Pairing,
    ComboError,
>)
    requires
        bottoms@.len() <= u32::MAX,
    ensures
        bottoms@.len() == 0 <==> r == Err::<Pairing, ComboError>(
            ComboError::EmptyWardrobe(Category::Bottom),
        ),
        bottoms@.len() > 0 && total_weight(bottoms@, table@) == 0 <==> r == Err::<
            Pairing,
            ComboError,
        >(ComboError::StoreUnavailable),
        bottoms@.len() > 0 && total_weight(bottoms@, table@) > 0 <==> r is Ok,
        r is Ok ==> r->Ok_0.top == top && bottoms@.contains(r->Ok_0.bottom) && weight_in(
            table@,
            r->Ok_0.bottom,
        ) > 0,
{
    match sample(bottoms, table) {
        Ok(bottom) => Ok(Pairing { top, bottom }),
        Err(SampleError::NoCandidates) => Err(ComboError::EmptyWardrobe(Category::Bottom)),
        Err(SampleError::DegenerateDistribution) => Err(ComboError::StoreUnavailable),
    }
}

impl Phase {
    /// Advances the request by one event. Any failure ends it at once; an
    /// event that does not belong to the phase is treated as a store failure.
    pub fn step(self, event: Event) -> (r: (Phase, Action))
        ensures
            self == Phase::Start && event == Event::Identified(true) ==> r == (
            Phase::AwaitingTops,
            Action::SpawnBottomsAndFetchTops,
            ),
            self == Phase::Start && event == Event::Identified(false) ==> r == (
            Phase::Finished,
            Action::Fail(ComboError::IdentityUnavailable),
            ),
            self == Phase::AwaitingTops ==> match event {
                Event::TopsFetched(Some(tops)) => if tops@.len() == 0 {
                    r == (Phase::Finished, Action::Fail(ComboError::EmptyWardrobe(Category::Top)))
                } else {
                    r.1 is FetchPreferences && tops@.contains(r.1->FetchPreferences_0) && r.0
                        == Phase::AwaitingPreferences { top: r.1->FetchPreferences_0 }
                },
                _ => r == (Phase::Finished, Action::Fail(ComboError::StoreUnavailable)),
            },
            self is AwaitingPreferences ==> match event {
                Event::PreferencesFetched(Some(table)) => r == (
                Phase::AwaitingBottoms { top: self->AwaitingPreferences_top, table },
                Action::JoinBottoms,
                ),
                _ => r == (Phase::Finished, Action::Fail(ComboError::StoreUnavailable)),
            },
            self is AwaitingBottoms ==> match event {
                Event::BottomsJoined(Some(bottoms)) => r.0 == Phase::Finished && (if bottoms@.len()
                    == 0 {
                    r.1 == Action::Fail(ComboError::EmptyWardrobe(Category::Bottom))
                } else if bottoms@.len() > u32::MAX || total_weight(
                    bottoms@,
                    self->AwaitingBottoms_table@,
                ) == 0 {
                    r.1 == Action::Fail(ComboError::StoreUnavailable)
                } else {
                    r.1 is Deliver && r.1->Deliver_0.top == self->AwaitingBottoms_top
                        && bottoms@.contains(r.1->Deliver_0.bottom) && weight_in(
                        self->AwaitingBottoms_table@,
                        r.1->Deliver_0.bottom,
                    ) > 0
                }),
                _ => r == (Phase::Finished, Action::Fail(ComboError::StoreUnavailable)),
            },
            self == Phase::Finished ==> r == (
            Phase::Finished,
            Action::Fail(ComboError::StoreUnavailable),
            ),
    {
        match self {
            Phase::Start => match event {
                Event::Identified(true) => (Phase::AwaitingTops, Action::SpawnBottomsAndFetchTops),
                Event::Identified(false) => (
                    Phase::Finished,
                    Action::Fail(ComboError::IdentityUnavailable),
                ),
                _ => (Phase::Finished, Action::Fail(ComboError::StoreUnavailable)),
            },
            Phase::AwaitingTops => match event {
                Event::TopsFetched(Some(tops)) => match choose_top(&tops) {
                    Ok(top) => {
                        assert(tops@.contains(top));
                        (Phase::AwaitingPreferences { top }, Action::FetchPreferences(top))
                    },
                    Err(e) => (Phase::Finished, Action::Fail(e)),
                },
                _ => (Phase::Finished, Action::Fail(ComboError::StoreUnavailable)),
            },
            Phase::AwaitingPreferences { top } => match event {
                Event::PreferencesFetched(Some(table)) => (
                    Phase::AwaitingBottoms { top, table },
                    Action::JoinBottoms,
                ),
                _ => (Phase::Finished, Action::Fail(ComboError::StoreUnavailable)),
            },
            Phase::AwaitingBottoms { top, table } => match event {
                Event::BottomsJoined(Some(bottoms)) => {
                    if bottoms.len() > 0 && bottoms.len() as u64 > u32::MAX as u64 {
                        return (Phase::Finished, Action::Fail(ComboError::StoreUnavailable));
                    }
                    match choose_bottom(top, &bottoms, &table) {
                        Ok(p) => {
                            assert(bottoms@.contains(p.bottom) && weight_in(table@, p.bottom) > 0);
                            assert(p == Pairing { top, bottom: p.bottom });
                            (Phase::Finished, Action::Deliver(p))
                        },
                        Err(e) => (Phase::Finished, Action::Fail(e)),
                    }
                },
                _ => (Phase::Finished, Action::Fail(ComboError::StoreUnavailable)),
            },
            Phase::Finished => (Phase::Finished, Action::Fail(ComboError::StoreUnavailable)),
        }
    }
}

} // verus!
