use std::num::NonZeroU32;
use std::time::{Duration, Instant};

use ratelimit_futures::{Action, Event, Waiter, Next, Phase, Stage};
use ratelimit_meter::{DirectRateLimiter, LeakyBucket, NonConformance};

/// One scheduling attempt of `waiter` at the instant `now`, against a
/// limiter checked at that instant and a timer that fires at `*timer`.
/// Returns whether the waiter resolved.
fn attempt(
    waiter: &mut Waiter<Instant>,
    lim: &mut DirectRateLimiter<LeakyBucket>,
    timer: &mut Instant,
    now: Instant,
    checks: &mut u32,
) -> bool {
    let mut event = Event::Poll;
    loop {
        let action = waiter.step(event);
        if let Some(at) = action.rearm {
            *timer = at;
        }
        event = match action.next {
            Next::CheckLimiter => {
                *checks += 1;
                match lim.check_at(now) {
                    Ok(()) => Event::Admitted,
                    Err(nc) => Event::Denied(nc.earliest_possible()),
                }
            }
            Next::PollTimer => {
                if now >= *timer {
                    Event::TimerReady
                } else {
                    Event::TimerPending
                }
            }
            Next::Ready => return true,
            Next::Pending => return false,
        };
    }
}

fn one_per_second() -> DirectRateLimiter<LeakyBucket> {
    DirectRateLimiter::<LeakyBucket>::per_second(NonZeroU32::new(1).unwrap())
}

#[test]
fn new_waiter_is_fresh() {
    let g: Waiter<u64> = Waiter::new();
    assert_eq!(g.phase, Phase::Fresh);
    assert_eq!(g.stage, Stage::Idle);
    assert_eq!(g.armed, None);
    assert!(!g.is_completed());
}

#[test]
fn immediate_admission_never_polls_timer() {
    let mut g: Waiter<u64> = Waiter::new();
    assert_eq!(g.step(Event::Poll), Action { rearm: None, next: Next::CheckLimiter });
    assert_eq!(g.phase, Phase::AwaitingTimer);
    assert_eq!(g.step(Event::Admitted), Action { rearm: None, next: Next::Ready });
    assert_eq!(g.phase, Phase::Completed);
    assert_eq!(g.armed, None);
}

#[test]
fn single_retry_waits_for_timer() {
    let mut g: Waiter<u64> = Waiter::new();
    assert_eq!(g.step(Event::Poll).next, Next::CheckLimiter);
    assert_eq!(g.step(Event::Denied(10)), Action { rearm: Some(10), next: Next::PollTimer });
    assert_eq!(g.step(Event::TimerPending), Action { rearm: None, next: Next::Pending });
    assert_eq!(g.step(Event::Poll), Action { rearm: None, next: Next::PollTimer });
    assert_eq!(g.step(Event::TimerPending).next, Next::Pending);
    assert_eq!(g.phase, Phase::AwaitingTimer);
    assert_eq!(g.step(Event::Poll).next, Next::PollTimer);
    assert_eq!(g.step(Event::TimerReady), Action { rearm: None, next: Next::CheckLimiter });
    assert_eq!(g.step(Event::Admitted), Action { rearm: None, next: Next::Ready });
    assert!(g.is_completed());
}

#[test]
fn rearm_follows_latest_denial() {
    let mut g: Waiter<u64> = Waiter::new();
    g.step(Event::Poll);
    assert_eq!(g.step(Event::Denied(5)).rearm, Some(5));
    assert_eq!(g.step(Event::TimerReady), Action { rearm: None, next: Next::CheckLimiter });
    // A denial after the timer fired re-arms and suspends, with no second poll.
    assert_eq!(g.step(Event::Denied(9)), Action { rearm: Some(9), next: Next::Pending });
    assert_eq!(g.armed, Some(9));
    g.step(Event::Poll);
    g.step(Event::TimerReady);
    assert_eq!(g.step(Event::Denied(12)).rearm, Some(12));
    assert_eq!(g.armed, Some(12));
}

#[test]
fn completed_waiter_does_not_check_again() {
    let mut g: Waiter<u64> = Waiter::new();
    g.step(Event::Poll);
    g.step(Event::Admitted);
    for _ in 0..3 {
        assert_eq!(g.step(Event::Poll), Action { rearm: None, next: Next::Ready });
        assert!(g.is_completed());
    }
}

#[test]
fn unexpected_event_is_ignored() {
    let mut g: Waiter<u64> = Waiter::new();
    assert!(!g.accepts_event(&Event::Admitted));
    assert_eq!(g.step(Event::Admitted), Action { rearm: None, next: Next::Pending });
    assert_eq!(g.phase, Phase::Fresh);
    assert!(g.accepts_event(&Event::Poll));
    g.step(Event::Poll);
    assert!(g.accepts_event(&Event::Denied(3)));
    assert!(!g.accepts_event(&Event::TimerReady));
}

#[test]
fn two_waiters_one_per_second() {
    let mut lim = one_per_second();
    let t0 = Instant::now();
    let mut checks = 0;

    let mut first = Waiter::new();
    let mut first_timer = t0;
    assert!(attempt(&mut first, &mut lim, &mut first_timer, t0, &mut checks));

    let mut second = Waiter::new();
    let mut timer = t0;
    assert!(!attempt(&mut second, &mut lim, &mut timer, t0, &mut checks));
    assert_eq!(timer, t0 + Duration::from_secs(1));
    assert_eq!(second.armed, Some(t0 + Duration::from_secs(1)));

    let checks_before = checks;
    assert!(!attempt(&mut second, &mut lim, &mut timer, t0 + Duration::from_millis(500), &mut checks));
    assert_eq!(checks, checks_before);

    assert!(attempt(&mut second, &mut lim, &mut timer, t0 + Duration::from_secs(1), &mut checks));
    assert!(second.is_completed());
}

#[test]
fn dropped_waiter_leaves_limiter_alone() {
    let mut lim = one_per_second();
    let t0 = Instant::now();
    let mut checks = 0;
    let mut first = Waiter::new();
    let mut timer = t0;
    assert!(attempt(&mut first, &mut lim, &mut timer, t0, &mut checks));

    let mut abandoned = Waiter::new();
    let mut abandoned_timer = t0;
    assert!(!attempt(&mut abandoned, &mut lim, &mut abandoned_timer, t0, &mut checks));
    drop(abandoned);

    let mut next = Waiter::new();
    let mut next_timer = t0;
    assert!(attempt(&mut next, &mut lim, &mut next_timer, t0 + Duration::from_secs(1), &mut checks));
}

#[test]
fn many_waiters_share_the_rate() {
    let mut lim = DirectRateLimiter::<LeakyBucket>::per_second(NonZeroU32::new(2).unwrap());
    let t0 = Instant::now();
    let mut checks = 0;
    let mut waiters: Vec<(Waiter<Instant>, Instant)> = (0..5).map(|_| (Waiter::new(), t0)).collect();
    let mut admitted = 0u32;
    for tick in 0..100u64 {
        let now = t0 + Duration::from_millis(100 * tick);
        for (waiter, timer) in waiters.iter_mut() {
            if attempt(waiter, &mut lim, timer, now, &mut checks) {
                admitted += 1;
                *waiter = Waiter::new();
                *timer = now;
            }
        }
    }
    // Ten seconds at two per second: twenty, give or take the first burst.
    assert!(admitted >= 19 && admitted <= 21, "admitted {}", admitted);
}
