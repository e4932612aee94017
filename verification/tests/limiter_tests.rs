use smol_launcher::limiter::Limiter;
use smol_launcher::limiter::FETCH_CAP;

#[test]
fn fetch_cap_is_one_hundred() {
    assert_eq!(FETCH_CAP, 100);
}

#[test]
fn five_hundred_requests_observe_peak_concurrency_at_most_one_hundred() {
    let mut limiter = Limiter::with_fetch_cap();
    let mut outstanding: usize = 0;
    let mut peak: usize = 0;
    let mut granted_total: usize = 0;
    for i in 0..500 {
        if limiter.try_acquire() {
            outstanding += 1;
            granted_total += 1;
            if outstanding > peak {
                peak = outstanding;
            }
        }
        // drain a few slots now and then, as completing fetches would
        if i % 7 == 6 && outstanding > 0 {
            limiter.release();
            outstanding -= 1;
        }
    }
    assert!(peak <= 100);
    assert_eq!(peak, 100);
    // every refused request was refused at the cap, and releases reopened slots
    assert!(granted_total > 100);
}

#[test]
fn released_slots_can_be_acquired_again() {
    let mut limiter = Limiter::new(2);
    assert!(limiter.try_acquire());
    assert!(limiter.try_acquire());
    assert!(!limiter.try_acquire());
    limiter.release();
    assert!(limiter.try_acquire());
    assert!(!limiter.try_acquire());
}

#[test]
fn failed_fetches_do_not_leak_capacity() {
    let mut limiter = Limiter::new(3);
    for _ in 0..10 {
        // a fetch attempt that fails still releases its slot
        assert!(limiter.try_acquire());
        limiter.release();
    }
    assert!(limiter.try_acquire());
}
