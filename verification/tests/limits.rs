use barnes_hut::at_least;
use barnes_hut::at_most;
use barnes_hut::RateLimiter;
use barnes_hut::Scalar;

fn s(i: i64) -> Scalar {
    Scalar::from_int(i)
}

#[test]
fn test_static_rate_limit() {
    let mut limiter = RateLimiter::new(s(1));
    assert_eq!([0, 1, 2].map(|_| limiter.allow(s(0))), [true, false, false]);
}

#[test]
fn test_at_most() {
    assert_eq!(at_most(s(1), s(2)), s(1));
    assert_eq!(at_most(s(2), s(1)), s(1));
    assert_eq!(at_most(s(3), at_most(s(1), s(2))), s(1));
}

#[test]
fn test_at_least() {
    assert_eq!(at_least(s(1), s(2)), s(2));
    assert_eq!(at_least(s(2), s(1)), s(2));
    assert_eq!(at_least(s(1), at_least(s(3), s(2))), s(3));
}

#[test]
fn rate_limiter_reopens_after_interval() {
    let mut limiter = RateLimiter::new(s(1));
    assert!(limiter.allow(s(0)));
    assert!(!limiter.allow(Scalar { raw: 32768 }));
    assert!(limiter.allow(s(2)));
    assert!(!limiter.allow(s(2)));
}
