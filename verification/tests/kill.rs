use gitg::WatchAction;
use gitg::WatchLoop;
use gitg::WatchMessage;

fn run_loop(rx: std::sync::mpsc::Receiver<WatchMessage>) -> Vec<String> {
    let mut state = WatchLoop::new();
    let mut forwarded: Vec<String> = Vec::new();
    for msg in rx {
        match state.step(&msg) {
            WatchAction::Forward => {
                if let WatchMessage::Change(text) = msg {
                    forwarded.push(text);
                }
            }
            WatchAction::Ignore => {}
            WatchAction::Stop => break,
        }
    }
    forwarded
}

#[test]
fn kill_wakes_an_idle_loop_and_completes() {
    let runtime = tokio::runtime::Builder::new_multi_thread()
        .build()
        .unwrap();
    runtime.block_on(async {
        let (tx, rx) = std::sync::mpsc::channel::<WatchMessage>();
        let handle = tokio::task::spawn_blocking(move || run_loop(rx));
        // no filesystem event ever arrives: the synthetic wake-up alone
        // must unblock the receive and end the loop
        tx.send(WatchMessage::Shutdown).unwrap();
        let forwarded = handle.await.unwrap();
        assert_eq!(forwarded.len(), 0);
    });
}

#[test]
fn queued_events_are_drained_before_the_kill_is_observed() {
    let runtime = tokio::runtime::Builder::new_multi_thread()
        .build()
        .unwrap();
    runtime.block_on(async {
        let (tx, rx) = std::sync::mpsc::channel::<WatchMessage>();
        tx.send(WatchMessage::Change(String::from("one"))).unwrap();
        tx.send(WatchMessage::Change(String::from("two"))).unwrap();
        tx.send(WatchMessage::TransportError(String::from("noise")))
            .unwrap();
        tx.send(WatchMessage::Change(String::from("three"))).unwrap();
        tx.send(WatchMessage::Shutdown).unwrap();
        let handle = tokio::task::spawn_blocking(move || run_loop(rx));
        let forwarded = handle.await.unwrap();
        assert_eq!(forwarded, vec!["one", "two", "three"]);
    });
}
