use interstellare_simulation::errors::ConfigurationError;
use interstellare_simulation::pool::PoolConfig;

#[test]
fn zero_sized_pool_is_a_configuration_error() {
    assert_eq!(PoolConfig::new(0), Err(ConfigurationError::ZeroWorkers));
}

#[test]
fn positive_pool_sizes_are_accepted() {
    assert_eq!(PoolConfig::new(1), Ok(PoolConfig { size: 1 }));
    assert_eq!(PoolConfig::new(24), Ok(PoolConfig { size: 24 }));
}

/// The distribution channels deliver each message to exactly one consumer.
/// Two consumers sharing one channel therefore split the snapshots between
/// them instead of each seeing all of them — the fan-out hazard of the
/// single-delivery pipeline.
#[test]
fn two_consumers_on_one_channel_split_the_messages() {
    let (tx, rx) = crossbeam_channel::unbounded::<u32>();
    let rx_a = rx.clone();
    let rx_b = rx;
    for n in 0..10 {
        tx.send(n).unwrap();
    }
    let mut got_a = Vec::new();
    let mut got_b = Vec::new();
    loop {
        let mut any = false;
        if let Ok(v) = rx_a.try_recv() {
            got_a.push(v);
            any = true;
        }
        if let Ok(v) = rx_b.try_recv() {
            got_b.push(v);
            any = true;
        }
        if !any {
            break;
        }
    }
    // together they saw the ten snapshots once each, not ten each
    assert_eq!(got_a.len() + got_b.len(), 10);
    let mut all: Vec<u32> = got_a.iter().chain(got_b.iter()).copied().collect();
    all.sort();
    assert_eq!(all, (0..10).collect::<Vec<u32>>());
}

/// A consumer distinguishes an empty channel from a disconnected one: only
/// the latter ends the stream.
#[test]
fn disconnection_is_distinguishable_from_empty() {
    let (tx, rx) = crossbeam_channel::unbounded::<u32>();
    assert_eq!(rx.try_recv(), Err(crossbeam_channel::TryRecvError::Empty));
    drop(tx);
    assert_eq!(
        rx.try_recv(),
        Err(crossbeam_channel::TryRecvError::Disconnected)
    );
}
