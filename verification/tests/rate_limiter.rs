use pingoo::ip::{IpAddr, Ipv4Addr, Ipv6Addr};
use pingoo::rate_limiter::bucket::{Counter, RateLimiterBucket};
use pingoo::rate_limiter::{
    create_prev_window, get_approx, prev_window_after, refusal_status, RateLimit, RateLimiter,
};
use pingoo::time::{Clock, Duration, Moment};
use std::future::Future;

fn with_paused_clock<F: Future<Output = ()>>(test: F) {
    tokio::runtime::Builder::new_current_thread()
        .enable_time()
        .start_paused(true)
        .build()
        .unwrap()
        .block_on(test)
}

async fn sleep_secs(secs: u64) {
    tokio::time::sleep(std::time::Duration::from_secs(secs)).await
}

fn v4(a: u8, b: u8, c: u8, d: u8) -> IpAddr {
    IpAddr::V4(Ipv4Addr::new(a, b, c, d))
}

fn v6(bits: u128) -> IpAddr {
    IpAddr::V6(Ipv6Addr::from_bits(bits))
}

#[test]
fn test_rate_limiter_alg() {
    // "Let's say I set a limit of 50 requests per minute on an API endpoint.
    // In this situation, I did 18 requests during the current minute, which started 15 seconds ago
    // and 42 requests during the entire previous minute."
    //
    // rate = 42 * ((60-15)/60) + 18
    //      = 42 * 0.75 + 18
    //      = 49.5 requests
    with_paused_clock(async {
        let limit = 50;
        let sampling_period = Duration::from_secs(60);
        let mut r = RateLimiter::new(limit, sampling_period, 2);
        let ip = v4(1, 1, 1, 1);

        for _ in 0..42 {
            assert!(r.can_resume(ip).unwrap(), "should resume until limit is not reached");
        }

        sleep_secs(60 + 15).await;
        for _ in 0..19 {
            assert!(r.can_resume(ip).unwrap(), "should resume for 42 * ((60-15)/60) + 19 = 50");
        }

        assert!(!r.can_resume(ip).unwrap(), "should break for 42 * ((60-15)/60) + 20 = 51");

        sleep_secs(3).await;
        assert!(r.can_resume(ip).unwrap(), "should resume for 42 * ((60-(15+3))/60) + 21 = 50");

        sleep_secs(2 * 60).await;
        for _ in 0..limit {
            assert!(r.can_resume(ip).unwrap(), "should allow until limit is not reached");
        }
        for _ in 0..u16::MAX {
            assert!(!r.can_resume(ip).unwrap(), "should break when limit reached");
        }
    });
}

#[test]
fn test_rate_limiter_backpressure() {
    with_paused_clock(async {
        let sampling_period = Duration::new(1, 0);
        let ips = [
            v4(0, 0, 0, 0),
            v4(1, 1, 1, 1),
            v4(2, 2, 2, 2),
            v4(3, 3, 3, 3),
            v4(4, 4, 4, 4),
            v4(5, 5, 5, 5),
            v4(6, 6, 6, 6),
            v4(7, 7, 7, 7),
            v4(8, 8, 8, 8),
        ];
        let capacity = 8;
        let mut r = RateLimiter::new(10, sampling_period, capacity);
        for i in 0..ips.len() {
            if i > capacity {
                assert!(r.can_resume(ips[i]).is_err(), "error - should backpressure on this IP");
            }
            assert!(r.can_resume(ips[i]).unwrap());
        }
    });
}

#[test]
fn test_rate_limiter_boundary_single_ip() {
    with_paused_clock(async {
        let ip = v4(1, 1, 1, 1);
        let mut r = RateLimiter::new(1, Duration::new(1, 0), 2);

        assert!(r.can_resume(ip).unwrap(), "should allow once when limit is 1");
        assert!(!r.can_resume(ip).unwrap(), "should block n 2nd attempt when limit is 1");

        let mut r = RateLimiter::new(0, Duration::new(1, 0), 2);
        assert!(!r.can_resume(ip).unwrap(), "should treat zero limit as always limited");
        assert!(!r.can_resume(ip).unwrap(), "should treat zero limit as always limited");

        let mut r = RateLimiter::new(0, Duration::new(0, 0), 2);
        assert!(
            !r.can_resume(ip).unwrap(),
            "should treat zero limit as always limited, even when zero window"
        );
        assert!(
            !r.can_resume(ip).unwrap(),
            "should treat zero limit as always limited, even when zero window"
        );

        let mut r = RateLimiter::new(1, Duration::new(0, 0), 2);
        assert!(
            r.can_resume(ip).unwrap(),
            "allow - limit should take precedense over zero window"
        );
        assert!(
            !r.can_resume(ip).unwrap(),
            "block - limit should take precedense over zero window"
        );

        let mut r = RateLimiter::new(u16::MAX, Duration::new(1, 0), 2);
        for _ in 1..u16::MAX {
            assert!(r.can_resume(ip).unwrap(), "allow - should handle limit overflow");
        }
        for _ in 0..u16::MAX {
            assert!(!r.can_resume(ip).unwrap(), "block - should handle limit overflow");
        }
    });
}

#[test]
fn test_get_approx() {
    with_paused_clock(async {
        let sampling_period = Duration::from_secs(60);
        let clock = Clock::start();
        let mut counter: u16 = 0;
        sleep_secs(60).await;
        for _ in 0..42 {
            counter = counter.saturating_add(1);
        }

        let start = clock.now();
        assert_eq!(42, counter);
        assert_eq!(42, get_approx(counter, clock.elapsed(&start), sampling_period));
        sleep_secs(15).await;
        assert_eq!(31, get_approx(counter, clock.elapsed(&start), sampling_period));
    });
}

#[test]
fn test_create_prev_window() {
    with_paused_clock(async {
        let sampling_window = Duration::from_secs(60);
        let clock = Clock::start();

        for tc in vec![0, 13, 59] {
            let now = clock.now();
            sleep_secs(tc).await;
            assert_eq!(now, create_prev_window(&clock, &now, &sampling_window));
        }

        for tc in vec![60, 73, 119] {
            let now = clock.now();
            sleep_secs(tc).await;
            assert_eq!(
                now.minus(&sampling_window),
                create_prev_window(&clock, &now, &sampling_window)
            );
        }
    });
}

#[test]
fn previous_window_starts_a_period_earlier_once_it_is_over() {
    with_paused_clock(async {
        let now = Clock::start().now();
        let minute = Duration::from_secs(60);
        let before = prev_window_after(&now, &Duration::new(59, 999_999_999), &minute);
        assert_eq!(now, before);
        assert_eq!(now.minus(&minute), prev_window_after(&now, &minute, &minute));
        assert_eq!(now, prev_window_after(&now, &Duration::from_secs(0), &Duration::from_secs(0)));
    });
}

#[test]
fn clocks_count_from_their_own_start() {
    with_paused_clock(async {
        let first = Clock::start();
        let start = first.now();
        sleep_secs(5).await;
        let second = Clock::start();
        assert_eq!(start, second.now());
        assert_eq!(start.plus(&Duration::from_secs(5)), first.now());
    });
}

#[test]
fn full_window_turns_new_clients_away_at_its_slots() {
    with_paused_clock(async {
        let now = Clock::start().now();
        let mut r = RateLimiter::new(5, Duration::from_secs(60), 2);
        r.roll(now, 2);
        assert_eq!(Ok(()), r.count(v4(1, 1, 1, 1), 2));
        assert_eq!(Ok(()), r.count(v6(1), 2));
        assert_eq!(Err(()), r.count(v4(2, 2, 2, 2), 2));
        assert_eq!(Ok(()), r.count(v6(1), 2));
        assert_eq!(Ok(()), r.count(v4(2, 2, 2, 2), 3));
    });
}

#[test]
fn others_do_not_use_up_the_limit() {
    with_paused_clock(async {
        let ip = v4(1, 1, 1, 1);
        let mut r = RateLimiter::new(3, Duration::from_secs(60), 8);
        for n in 1..10 {
            assert!(r.can_resume(v4(2, 2, 2, n)).is_ok());
            sleep_secs(1).await;
            assert_eq!(Ok(n <= 3), r.can_resume(ip));
            assert!(r.can_resume(v6(7)).is_ok());
        }
    });
}

#[test]
fn clock_follows_tokio_time() {
    with_paused_clock(async {
        let clock = Clock::start();
        let start = clock.now();
        tokio::time::sleep(std::time::Duration::from_millis(2_500)).await;
        let later = clock.now();
        assert_eq!(later, start.plus(&Duration::new(2, 500_000_000)));
        assert_eq!(Duration::new(2, 500_000_000), clock.elapsed(&start));
        assert_eq!(2, clock.elapsed(&start).as_secs());
        assert_eq!(Duration::from_secs(0), start.duration_since(&later));
        assert!(later.is_at_or_after(&start));
        assert!(!start.is_at_or_after(&later));
    });
}

#[test]
fn durations_carry_nanoseconds() {
    assert_eq!(Duration::new(3, 250_000_000), Duration::new(1, 2_250_000_000));
    assert_eq!(3, Duration::new(1, 2_250_000_000).as_secs());
    assert!(Duration::new(0, 999_999_999).is_shorter_than(&Duration::from_secs(1)));
    assert!(!Duration::from_secs(1).is_shorter_than(&Duration::from_secs(1)));
    assert!(Duration::new(0, 0).is_zero());
    assert!(!Duration::new(0, 1).is_zero());
}

#[test]
fn moments_count_spans() {
    with_paused_clock(async {
        let clock = Clock::start();
        let start = clock.now();
        let span = Duration::from_secs(10);
        let later = start.plus(&Duration::from_secs(20));
        assert!(later.is_past(&start, 2, &span));
        assert!(!later.is_past(&start, 3, &span));
    });
}

#[test]
fn counter_stops_at_the_largest_count() {
    let mut counter = Counter::new();
    assert_eq!(0, counter.sum);
    counter.increment();
    assert_eq!(1, counter.sum);
    counter.sum = u16::MAX;
    counter.increment();
    assert_eq!(u16::MAX, counter.sum);
}

#[test]
fn approx_is_all_at_first_and_nothing_at_the_end() {
    let minute = Duration::from_secs(60);
    assert_eq!(42, get_approx(42, Duration::new(0, 999_999_999), minute));
    assert_eq!(41, get_approx(42, Duration::from_secs(1), minute));
    assert_eq!(0, get_approx(42, Duration::new(59, 999_999_999), minute));
    assert_eq!(0, get_approx(42, minute, minute));
    assert_eq!(0, get_approx(42, Duration::from_secs(0), Duration::from_secs(0)));
    assert_eq!(65535, get_approx(65535, Duration::from_secs(0), Duration::from_secs(1 << 62)));
}

#[test]
fn new_client_is_turned_away_from_a_full_window() {
    with_paused_clock(async {
        let capacity = 8;
        let mut r = RateLimiter::new(1, Duration::from_secs(60), capacity);
        let mut counted = 0;
        let mut turned_away = None;
        for i in 0..1000u32 {
            let ip = IpAddr::V4(Ipv4Addr::from_bits(i));
            match r.can_resume(ip) {
                Ok(allowed) => {
                    assert!(allowed);
                    counted += 1;
                }
                Err(()) => {
                    turned_away = Some(ip);
                    break;
                }
            }
        }
        assert!(counted >= capacity);
        let ip = turned_away.unwrap();
        assert_eq!(Err(()), r.can_resume(ip));
        assert_eq!(Err(()), r.can_resume(v6(1)));
        // a client that is counted is still answered
        assert_eq!(Ok(false), r.can_resume(IpAddr::V4(Ipv4Addr::from_bits(0))));
        // the next window has room again
        sleep_secs(60).await;
        assert_eq!(Ok(true), r.can_resume(ip));
    });
}

#[test]
fn full_means_every_slot_taken() {
    with_paused_clock(async {
        let now = Clock::start().now();
        let mut bucket = RateLimiterBucket::new(now, 2);
        bucket.add(&v4(1, 1, 1, 1));
        assert!(bucket.is_full(1));
        assert!(!bucket.is_full(2));
        bucket.add(&v6(1));
        assert!(bucket.is_full(2));
        assert!(!bucket.is_full(3));
        bucket.add(&v6(1));
        assert!(bucket.is_full(2));
        assert_eq!(Some(2), bucket.count(&v6(1)));
        assert_eq!(Some(1), bucket.count(&v4(1, 1, 1, 1)));
        assert_eq!(None, bucket.count(&v4(0, 0, 0, 1)));
        assert!(bucket.slots() >= 2);
        assert_eq!(now, bucket.starts_at());
    });
}

#[test]
fn clients_are_counted_apart() {
    with_paused_clock(async {
        let mut r = RateLimiter::new(1, Duration::from_secs(60), 8);
        assert_eq!(Ok(true), r.can_resume(v4(0, 0, 0, 1)));
        assert_eq!(Ok(false), r.can_resume(v4(0, 0, 0, 1)));
        assert_eq!(Ok(true), r.can_resume(v6(1)));
        assert_eq!(Ok(true), r.can_resume(v4(0, 0, 0, 2)));
    });
}

#[test]
fn current_window_becomes_previous_from_either_bucket() {
    with_paused_clock(async {
        let ip = v4(1, 1, 1, 1);
        let mut r = RateLimiter::new(10, Duration::from_secs(60), 2);
        for _ in 0..3 {
            for _ in 0..4 {
                assert_eq!(Ok(true), r.can_resume(ip));
            }
            // at the start of a window all of the previous one counts
            sleep_secs(60).await;
            for _ in 0..6 {
                assert_eq!(Ok(true), r.can_resume(ip));
            }
            assert_eq!(Ok(false), r.can_resume(ip));
            sleep_secs(60).await;
            for _ in 0..3 {
                assert_eq!(Ok(true), r.can_resume(ip));
            }
            assert_eq!(Ok(false), r.can_resume(ip));
            sleep_secs(120).await;
        }
    });
}

#[test]
fn rolling_twice_at_once_changes_nothing() {
    with_paused_clock(async {
        let ip = v4(1, 1, 1, 1);
        let clock = Clock::start();
        let mut r = RateLimiter::new(2, Duration::from_secs(10), 2);
        assert_eq!(Ok(()), r.count(ip, 3));
        sleep_secs(10).await;
        let now: Moment = clock.now();
        r.roll(now, 3);
        assert!(r.allows(&ip, now));
        r.roll(now, 3);
        assert!(r.allows(&ip, now));
        assert_eq!(Ok(()), r.count(ip, 3));
        assert!(r.allows(&ip, now));
        assert_eq!(Ok(()), r.count(ip, 3));
        assert!(!r.allows(&ip, now));
        // waiting helps: half of the previous request no longer counts
        assert!(r.allows(&ip, now.plus(&Duration::from_secs(5))));
        assert!(r.is_within_curr_bucket_window(now, now));
        assert!(!r.is_within_curr_bucket_window(now.plus(&Duration::from_secs(10)), now));
        assert!(!r.is_outside_next_monothonic_window(now.plus(&Duration::from_secs(19)), now));
        assert!(r.is_outside_next_monothonic_window(now.plus(&Duration::from_secs(20)), now));
    });
}

#[test]
fn refusals_have_their_status() {
    assert_eq!(None, refusal_status(&Ok(true)));
    assert_eq!(Some(429), refusal_status(&Ok(false)));
    assert_eq!(Some(503), refusal_status(&Err(())));
}

#[test]
fn settings_make_a_limiter() {
    with_paused_clock(async {
        let config = RateLimit { max: 2, window: 60, capacity: 4 };
        let ip = v4(1, 1, 1, 1);
        let mut r = RateLimiter::from_config(&config);
        assert_eq!(Ok(true), r.can_resume(ip));
        assert_eq!(Ok(true), r.can_resume(ip));
        assert_eq!(Ok(false), r.can_resume(ip));
        sleep_secs(120).await;
        assert_eq!(Ok(true), r.can_resume(ip));
    });
}
