use nix::sys::signal::{SigEvent, SigevNotify, Signal};
use nix::sys::time::TimeSpec;
use nix::sys::timer::{Expiration, Timer, TimerSetTimeFlags};
use nix::time::ClockId;
use vstd::prelude::*;

verus! {

/// Relies on nix::sys::timer::Timer: an owned POSIX timer, deleted when
/// dropped. Its `Drop` panics only when the system calls the timer id
/// invalid, which a timer made by `Timer::new` never is.
#[verifier::external_type_specification]
#[verifier::external_body]
pub struct ExTimer(Timer);

/// Relies on nix::unistd::gettid: the kernel id of the calling thread.
#[verifier::external_body]
fn current_thread_id() -> (r: i32) {
    nix::unistd::gettid().as_raw()
}

/// Relies on nix::sys::timer::Timer::new: a timer on the calling thread's
/// CPU-time clock whose expiry sends SIGALRM to thread `thread_id`, with
/// `token` in the signal's value. `None` when the system refuses a timer.
#[verifier::external_body]
fn create_timer(thread_id: i32, token: isize) -> (r: Option<Timer>) {
    let event = SigEvent::new(
        SigevNotify::SigevThreadId { signal: Signal::SIGALRM, thread_id, si_value: token },
    );
    Timer::new(ClockId::CLOCK_THREAD_CPUTIME_ID, event).ok()
}

/// Relies on nix::sys::timer::Timer::set: sets a one-shot expiry `secs`
/// seconds and `nanos` nanoseconds from now (an expiry of zero cancels the
/// pending one). Returns whether the system accepted it.
#[verifier::external_body]
fn set_timer(timer: &mut Timer, secs: i64, nanos: i64) -> (r: bool) {
    timer.set(Expiration::OneShot(TimeSpec::new(secs, nanos)), TimerSetTimeFlags::empty()).is_ok()
}

/// Largest number of whole seconds that a timer expiry holds.
pub const MAX_TIMER_SECS: u64 = 0x7fff_ffff_ffff_ffff;

/// Nanoseconds in one second.
pub const NANOS_PER_SEC: u32 = 1_000_000_000;

/// The expiry, in whole seconds and nanoseconds, that a quota of `secs`
/// seconds and `nanos` nanoseconds sets on a timer: none for a zero quota,
/// which a timer would take as a cancellation; seconds past what a timer
/// holds are cut to its largest value.
pub open spec fn expiry_of(secs: u64, nanos: u32) -> Option<(i64, i64)> {
    if secs == 0 && nanos == 0 {
        None
    } else if secs > MAX_TIMER_SECS {
        Some((MAX_TIMER_SECS as i64, nanos as i64))
    } else {
        Some((secs as i64, nanos as i64))
    }
}

/// The expiry that arming for `secs` seconds and `nanos` nanoseconds sets
/// on a timer, or `None` when such a quota is not armed.
pub fn timer_expiry(secs: u64, nanos: u32) -> (r: Option<(i64, i64)>)
    ensures
        r == expiry_of(secs, nanos),
{
    if secs == 0 && nanos == 0 {
        None
    } else if secs > MAX_TIMER_SECS {
        Some((MAX_TIMER_SECS as i64, nanos as i64))
    } else {
        Some((secs as i64, nanos as i64))
    }
}

/// A CPU-time watchdog bound to the thread that created it.
///
/// When an armed watchdog's quota of thread CPU time runs out, the thread
/// receives SIGALRM carrying the watchdog's token, which the signal handler
/// uses to find what to abort. Dropping the watchdog deletes its timer.
pub struct Watchdog {
    timer: Timer,
    token: isize,
    pending: Option<(i64, i64)>,
}

impl Watchdog {
    /// The value that the watchdog's signal carries.
    pub closed spec fn token_spec(&self) -> isize {
        self.token
    }

    /// The expiry last set by `arm`, if it has not been cancelled since.
    pub closed spec fn pending_spec(&self) -> Option<(i64, i64)> {
        self.pending
    }

    /// A one-shot expiry was set by `arm` and has not been cancelled since.
    pub open spec fn armed_spec(&self) -> bool {
        self.pending_spec() is Some
    }

    /// Creates a disarmed watchdog on the calling thread's CPU-time clock.
    ///
    /// Returns `None` when the system refuses a timer; a bounded run cannot
    /// go on without one.
    pub fn new(token: isize) -> (r: Option<Watchdog>)
        ensures
            r matches Some(w) ==> w.token_spec() == token && !w.armed_spec(),
    {
        let thread_id = current_thread_id();
        match create_timer(thread_id, token) {
            Some(timer) => Some(Watchdog { timer, token, pending: None }),
            None => None,
        }
    }

    /// Sets the watchdog to fire once after `secs` seconds and `nanos`
    /// nanoseconds of the thread's CPU time from now.
    ///
    /// The timer receives the expiry `timer_expiry(secs, nanos)`. A zero
    /// quota is not armed: it would cancel rather than fire. Returns whether
    /// the watchdog is now armed; when the system refuses the expiry, the
    /// watchdog stays as it was.
    pub fn arm(&mut self, secs: u64, nanos: u32) -> (r: bool)
        requires
            nanos < NANOS_PER_SEC,
        ensures
            expiry_of(secs, nanos) is None ==> !r,
            r ==> final(self).pending_spec() == expiry_of(secs, nanos),
            !r ==> final(self).pending_spec() == old(self).pending_spec(),
            final(self).token_spec() == old(self).token_spec(),
    {
        match timer_expiry(secs, nanos) {
            None => false,
            Some((s, ns)) => {
                let ok = set_timer(&mut self.timer, s, ns);
                if ok {
                    self.pending = Some((s, ns));
                }
                ok
            },
        }
    }

    /// Cancels a pending expiry. A signal already on its way is not
    /// recalled. Returns whether the cancellation was accepted.
    pub fn disarm(&mut self) -> (r: bool)
        ensures
            r ==> final(self).pending_spec() is None,
            !r ==> final(self).pending_spec() == old(self).pending_spec(),
            final(self).token_spec() == old(self).token_spec(),
    {
        let ok = set_timer(&mut self.timer, 0, 0);
        if ok {
            self.pending = None;
        }
        ok
    }

    /// Whether an expiry is pending as far as this watchdog knows.
    pub fn is_armed(&self) -> (r: bool)
        ensures
            r == self.armed_spec(),
    {
        self.pending.is_some()
    }

    /// The expiry last set by `arm`, if it has not been cancelled since.
    pub fn pending(&self) -> (r: Option<(i64, i64)>)
        ensures
            r == self.pending_spec(),
    {
        self.pending
    }

    /// The value that the watchdog's signal carries.
    pub fn token(&self) -> (r: isize)
        ensures
            r == self.token_spec(),
    {
        self.token
    }
}

} // verus!
