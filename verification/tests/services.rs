use stock_tracker::services::data_sync::{
    DataSync, SyncAction, SyncEvent, SyncState, SYMBOL_FETCH_DELAY,
};
use stock_tracker::services::stock_client::quote_url;

fn plan(symbols: &[&str]) -> DataSync {
    DataSync::new(symbols.iter().map(|s| s.to_string()).collect())
}

#[test]
fn quote_address() {
    assert_eq!(
        quote_url("https://finnhub.io/api/v1", "AAPL", "SECRET"),
        "https://finnhub.io/api/v1/quote?symbol=AAPL&token=SECRET"
    );
    assert_eq!(quote_url("", "", ""), "/quote?symbol=&token=");
    assert_eq!(quote_url("http://h/", "A B", "k&x"), "http://h//quote?symbol=A B&token=k&x");
}

#[test]
fn pause_after_each_symbol() {
    assert_eq!(SYMBOL_FETCH_DELAY, 12);
}

#[test]
fn a_round_goes_through_the_symbols_in_order() {
    let sync = plan(&["AAPL", "MSFT", "GOOG"]);
    assert_eq!(sync.len(), 3);
    assert_eq!(sync.symbol(0), "AAPL");
    assert_eq!(sync.symbol(2), "GOOG");
    let (mut state, mut action) = sync.start();
    assert_eq!((state, action), (SyncState::Waiting, SyncAction::AwaitTick));
    let mut log = Vec::new();
    for _round in 0..2 {
        loop {
            let event = match action {
                SyncAction::AwaitTick => SyncEvent::Tick,
                SyncAction::Fetch(i) => {
                    log.push(format!("fetch {}", sync.symbol(i)));
                    SyncEvent::Fetched(i != 1)
                }
                SyncAction::Save(i) => {
                    log.push(format!("save {}", sync.symbol(i)));
                    SyncEvent::Saved(i != 2)
                }
                SyncAction::Sleep(seconds) => {
                    log.push(format!("sleep {}", seconds));
                    SyncEvent::Slept
                }
            };
            let next = sync.step(state, event);
            state = next.0;
            action = next.1;
            if state == SyncState::Waiting {
                break;
            }
        }
        assert_eq!(action, SyncAction::AwaitTick);
    }
    let round = vec![
        "fetch AAPL", "save AAPL", "sleep 12", "fetch MSFT", "sleep 12", "fetch GOOG",
        "save GOOG", "sleep 12",
    ];
    let twice: Vec<String> = round.iter().chain(round.iter()).map(|s| s.to_string()).collect();
    assert_eq!(log, twice);
}

#[test]
fn a_refresh_without_symbols_only_waits() {
    let sync = plan(&[]);
    let (state, action) = sync.start();
    assert_eq!(sync.step(state, SyncEvent::Tick), (SyncState::Waiting, SyncAction::AwaitTick));
    assert_eq!(action, SyncAction::AwaitTick);
}

#[test]
fn events_out_of_place_change_nothing() {
    let sync = plan(&["A", "B"]);
    assert_eq!(
        sync.step(SyncState::Waiting, SyncEvent::Slept),
        (SyncState::Waiting, SyncAction::AwaitTick)
    );
    assert_eq!(
        sync.step(SyncState::Fetching(1), SyncEvent::Tick),
        (SyncState::Fetching(1), SyncAction::Fetch(1))
    );
    assert_eq!(
        sync.step(SyncState::Saving(0), SyncEvent::Fetched(true)),
        (SyncState::Saving(0), SyncAction::Save(0))
    );
    assert_eq!(
        sync.step(SyncState::Pausing(0), SyncEvent::Saved(true)),
        (SyncState::Pausing(0), SyncAction::Sleep(12))
    );
    assert_eq!(
        sync.step(SyncState::Pausing(0), SyncEvent::Slept),
        (SyncState::Fetching(1), SyncAction::Fetch(1))
    );
    assert_eq!(
        sync.step(SyncState::Pausing(1), SyncEvent::Slept),
        (SyncState::Waiting, SyncAction::AwaitTick)
    );
}

#[test]
fn a_state_of_no_symbol_gives_way_to_waiting() {
    let sync = plan(&["A", "B"]);
    for state in [SyncState::Fetching(2), SyncState::Saving(7), SyncState::Pausing(usize::MAX)] {
        for event in [SyncEvent::Tick, SyncEvent::Fetched(true), SyncEvent::Saved(true), SyncEvent::Slept] {
            assert_eq!(sync.step(state, event), (SyncState::Waiting, SyncAction::AwaitTick));
        }
    }
}
