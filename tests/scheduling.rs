use pdb_fetch::fanout::FanOut;

#[test]
fn cap_of_two_over_five_targets() {
    let mut pool = FanOut::new(5, 2);
    let mut started = Vec::new();
    let mut running: Vec<usize> = Vec::new();
    while !pool.is_done() {
        while let Some(i) = pool.launch() {
            started.push(i);
            running.push(i);
            assert!(pool.running() <= 2);
            assert!(running.len() <= 2);
        }
        running.remove(0);
        pool.complete(true);
    }
    assert_eq!(started, vec![0, 1, 2, 3, 4]);
    assert_eq!(pool.failures(), 0);
}

#[test]
fn failed_item_does_not_stop_siblings() {
    let mut pool = FanOut::new(2, 1);
    assert_eq!(pool.launch(), Some(0));
    assert_eq!(pool.launch(), None);
    pool.complete(false);
    assert_eq!(pool.launch(), Some(1));
    pool.complete(true);
    assert!(pool.is_done());
    assert_eq!(pool.failures(), 1);
}

#[test]
fn empty_fan_out_is_done_at_once() {
    let mut pool = FanOut::new(0, 3);
    assert!(pool.is_done());
    assert_eq!(pool.launch(), None);
}

#[test]
fn completion_while_idle_changes_nothing() {
    let mut pool = FanOut::new(1, 1);
    pool.complete(false);
    assert_eq!(pool.failures(), 0);
    assert_eq!(pool.launch(), Some(0));
}
