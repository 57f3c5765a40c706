//! The order of the periodic refresh of the symbols.
//!
//! At each tick of the refresh interval the symbols are gone through in the order in
//! which they were given: the quote of a symbol is fetched and, if that went well, saved;
//! then comes a pause, whatever came of the symbol. Waiting, fetching, saving and
//! sleeping are left to the caller, who reports what came of them.

use vstd::prelude::*;

verus! {

/// The seconds of the pause after each symbol.
pub const SYMBOL_FETCH_DELAY: u64 = 12;

/// Where a refresh stands.
#[derive(Debug, Clone, Copy, PartialEq, Eq, Structural)]
pub enum SyncState {
    /// Between two rounds: the next tick is awaited.
    Waiting,
    /// The quote of the symbol at this place is being fetched.
    Fetching(usize),
    /// The quote of the symbol at this place is being saved.
    Saving(usize),
    /// The pause after the symbol at this place.
    Pausing(usize),
}

/// What the caller reports.
#[derive(Debug, Clone, Copy, PartialEq, Eq, Structural)]
pub enum SyncEvent {
    /// The refresh interval has passed.
    Tick,
    /// The fetch is over; the flag says whether it gave a quote.
    Fetched(bool),
    /// The save is over; the flag says whether it went well.
    Saved(bool),
    /// The pause is over.
    Slept,
}

/// What the caller is to do next.
#[derive(Debug, Clone, Copy, PartialEq, Eq, Structural)]
pub enum SyncAction {
    /// Wait for the next tick and report [`SyncEvent::Tick`].
    AwaitTick,
    /// Fetch the quote of the symbol at this place and report [`SyncEvent::Fetched`].
    Fetch(usize),
    /// Save the quote of the symbol at this place and report [`SyncEvent::Saved`].
    Save(usize),
    /// Sleep for this many seconds and report [`SyncEvent::Slept`].
    Sleep(u64),
}

/// What is to be done in `state`.
pub open spec fn action_in(state: SyncState) -> SyncAction {
    match state {
        SyncState::Waiting => SyncAction::AwaitTick,
        SyncState::Fetching(i) => SyncAction::Fetch(i),
        SyncState::Saving(i) => SyncAction::Save(i),
        SyncState::Pausing(_) => SyncAction::Sleep(SYMBOL_FETCH_DELAY),
    }
}

/// Whether `state` is a state of a refresh of `count` symbols: the place that it names,
/// if it names one, is the place of a symbol.
pub open spec fn is_state_of(count: nat, state: SyncState) -> bool {
    match state {
        SyncState::Waiting => true,
        SyncState::Fetching(i) => i < count,
        SyncState::Saving(i) => i < count,
        SyncState::Pausing(i) => i < count,
    }
}

/// Where a refresh of `count` symbols that stands at `state` goes when `event` is
/// reported. An event that does not belong to the state changes nothing, and a state
/// that is none of the refresh gives way to waiting for the next tick.
pub open spec fn next_state(count: nat, state: SyncState, event: SyncEvent) -> SyncState {
    if !is_state_of(count, state) {
        SyncState::Waiting
    } else {
        match (state, event) {
            (SyncState::Waiting, SyncEvent::Tick) => if count > 0 {
                SyncState::Fetching(0)
            } else {
                SyncState::Waiting
            },
            (SyncState::Fetching(i), SyncEvent::Fetched(true)) => SyncState::Saving(i),
            (SyncState::Fetching(i), SyncEvent::Fetched(false)) => SyncState::Pausing(i),
            (SyncState::Saving(i), SyncEvent::Saved(_)) => SyncState::Pausing(i),
            (SyncState::Pausing(i), SyncEvent::Slept) => if i + 1 < count {
                SyncState::Fetching((i + 1) as usize)
            } else {
                SyncState::Waiting
            },
            _ => state,
        }
    }
}

/// A refresh never leaves its symbols: every event leads to a state of the refresh.
pub proof fn lemma_next_state_is_state(count: nat, state: SyncState, event: SyncEvent)
    requires
        count <= usize::MAX,
    ensures
        is_state_of(count, next_state(count, state, event)),
{
}

/// The symbol after the one at `i` is fetched once the quote of the symbol at `i` was
/// fetched, saved or not, and the pause is over; after the last symbol the round is over.
pub proof fn lemma_round_goes_through_in_order(count: nat, i: usize, fetched: bool, saved: bool)
    requires
        i < count <= usize::MAX,
    ensures
        ({
            let after_fetch = next_state(count, SyncState::Fetching(i), SyncEvent::Fetched(fetched));
            let before_pause = if fetched {
                next_state(count, after_fetch, SyncEvent::Saved(saved))
            } else {
                after_fetch
            };
            let after_pause = next_state(count, before_pause, SyncEvent::Slept);
            &&& before_pause == SyncState::Pausing(i)
            &&& action_in(before_pause) == SyncAction::Sleep(SYMBOL_FETCH_DELAY)
            &&& after_pause == (if i + 1 < count {
                SyncState::Fetching((i + 1) as usize)
            } else {
                SyncState::Waiting
            })
        }),
{
}

/// The periodic refresh of a list of symbols.
#[derive(Debug)]
pub struct DataSync {
    symbols: Vec<String>,
}

impl DataSync {
    /// The symbols, in the order in which they are refreshed.
    pub closed spec fn symbols(&self) -> Seq<Seq<char>> {
        self.symbols@.map_values(|s: String| s@)
    }

    /// A refresh of `symbols`, in their order.
    pub fn new(symbols: Vec<String>) -> (sync: DataSync)
        ensures
            sync.symbols() == symbols@.map_values(|s: String| s@),
    {
        DataSync { symbols }
    }

    /// The number of symbols.
    pub fn len(&self) -> (n: usize)
        ensures
            n == self.symbols().len(),
    {
        self.symbols.len()
    }

    /// The symbol at place `i`.
    pub fn symbol(&self, i: usize) -> (symbol: &String)
        requires
            i < self.symbols().len(),
        ensures
            symbol@ == self.symbols()[i as int],
    {
        &self.symbols[i]
    }

    /// The state in which a refresh begins, and what is to be done in it.
    pub fn start(&self) -> (r: (SyncState, SyncAction))
        ensures
            r.0 == SyncState::Waiting,
            r.1 == SyncAction::AwaitTick,
    {
        (SyncState::Waiting, SyncAction::AwaitTick)
    }

    /// Takes the refresh one step on: from `state`, told `event`, to the next state and
    /// what is to be done in it. A place that an action names is the place of a symbol.
    pub fn step(&self, state: SyncState, event: SyncEvent) -> (r: (SyncState, SyncAction))
        ensures
            r.0 == next_state(self.symbols().len(), state, event),
            r.1 == action_in(r.0),
            is_state_of(self.symbols().len(), r.0),
    {
        let count = self.symbols.len();
        let known = match state {
            SyncState::Waiting => true,
            SyncState::Fetching(i) => i < count,
            SyncState::Saving(i) => i < count,
            SyncState::Pausing(i) => i < count,
        };
        let next = if !known {
            SyncState::Waiting
        } else {
            match (state, event) {
            (SyncState::Waiting, SyncEvent::Tick) => if count > 0 {
                SyncState::Fetching(0)
            } else {
                SyncState::Waiting
            },
            (SyncState::Fetching(i), SyncEvent::Fetched(true)) => SyncState::Saving(i),
            (SyncState::Fetching(i), SyncEvent::Fetched(false)) => SyncState::Pausing(i),
            (SyncState::Saving(i), SyncEvent::Saved(_)) => SyncState::Pausing(i),
                (SyncState::Pausing(i), SyncEvent::Slept) => if i + 1 < count {
                    SyncState::Fetching(i + 1)
                } else {
                    SyncState::Waiting
                },
                _ => state,
            }
        };
        let action = match next {
            SyncState::Waiting => SyncAction::AwaitTick,
            SyncState::Fetching(i) => SyncAction::Fetch(i),
            SyncState::Saving(i) => SyncAction::Save(i),
            SyncState::Pausing(_) => SyncAction::Sleep(SYMBOL_FETCH_DELAY),
        };
        (next, action)
    }
}

} // verus!
