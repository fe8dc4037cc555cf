//! Cloneable stop signals for a blocking capture or playback. Every clone
//! shares one flag, so a control thread can stop the stream another thread
//! is waiting on.

use std::sync::atomic::{AtomicBool, AtomicU64, Ordering};
use std::sync::{Arc, Condvar, Mutex, MutexGuard, PoisonError};
use std::time::Duration;
use vstd::prelude::*;
use crate::stream::capture_wait_is_over;

verus! {

#[verifier::external_type_specification]
#[verifier::external_body]
#[verifier::reject_recursive_types(T)]
pub struct ExMutex<T: ?Sized>(Mutex<T>);

#[verifier::external_type_specification]
#[verifier::external_body]
#[verifier::reject_recursive_types(T)]
pub struct ExMutexGuard<'a, T: ?Sized + 'a>(MutexGuard<'a, T>);

#[verifier::external_type_specification]
#[verifier::external_body]
#[verifier::reject_recursive_types(T)]
pub struct ExPoisonError<T>(PoisonError<T>);

#[verifier::external_type_specification]
#[verifier::external_body]
pub struct ExCondvar(Condvar);

/// `Mutex::new`: an unlocked mutex around `()`.
#[verifier::external_body]
fn new_wait_mutex() -> (m: Mutex<()>) {
    Mutex::new(())
}

/// `Condvar::new`: a condition variable with no waiters.
#[verifier::external_body]
fn new_condvar() -> (c: Condvar) {
    Condvar::new()
}

/// `Mutex::lock`: blocks until the mutex is held; an error when a holder
/// panicked. Left unsaid: std does not return from this call when the calling
/// thread already holds the lock. The only mutex locked here is a token's
/// private wait mutex, and it is locked only by `wake_waiters` and
/// `wait_for_capture_event`, neither of which locks it again or hands the
/// guard out before releasing it.
#[verifier::external_body]
fn lock_wait(m: &Mutex<()>) -> (guard: Result<MutexGuard<'_, ()>, PoisonError<MutexGuard<'_, ()>>>) {
    m.lock()
}

/// `Condvar::notify_all`: wakes every thread parked on the condition variable.
#[verifier::external_body]
fn notify_all(c: &Condvar) {
    c.notify_all()
}

/// `Condvar::wait_timeout`: releases `guard`, parks until a notify, a spurious
/// wake or `timeout`, and relocks; the result is whether the timeout passed,
/// or an error when the mutex was poisoned. Nothing is promised of it: it
/// depends on other threads and the clock. Left unsaid: std may panic when
/// one condition variable is used with more than one mutex; each token's
/// condition variable is only ever used with that token's own wait mutex.
#[verifier::external_body]
fn park<'a>(c: &Condvar, guard: MutexGuard<'a, ()>, timeout: Duration) -> (r: Result<bool, ()>) {
    match c.wait_timeout(guard, timeout) {
        Ok((_, result)) => Ok(result.timed_out()),
        Err(_) => Err(()),
    }
}

/// Stop signal for a blocking output playback.
#[derive(Clone, Debug)]
pub struct OutputPlaybackCancellation {
    cancelled: Arc<AtomicBool>,
}

impl OutputPlaybackCancellation {
    /// A fresh, uncancelled signal.
    pub fn new() -> (token: Self) {
        OutputPlaybackCancellation { cancelled: Arc::new(AtomicBool::new(false)) }
    }

    /// Raises the shared flag; every clone observes it.
    pub fn cancel(&self) {
        self.cancelled.store(true, Ordering::Release);
    }

    /// Reads the shared flag.
    pub fn is_cancelled(&self) -> (cancelled: bool) {
        self.cancelled.load(Ordering::Acquire)
    }
}

#[derive(Debug)]
struct InputCaptureCancellationInner {
    cancelled: AtomicBool,
    wait: Mutex<()>,
    wake: Condvar,
}

impl InputCaptureCancellationInner {
    /// Wakes the capture wait loop without losing the notification: the
    /// waiter checks its predicates while holding `wait` and then parks on
    /// `wake` atomically, so the notify is issued while briefly holding
    /// `wait`. A poisoned lock still notifies.
    fn wake_waiters(&self) {
        let _held = lock_wait(&self.wait);
        notify_all(&self.wake);
    }
}

/// Stop signal for a blocking input capture. Cancelling wakes an active
/// capture wait at once. A token is single-use: create one per capture.
#[derive(Clone, Debug)]
pub struct InputCaptureCancellation {
    inner: Arc<InputCaptureCancellationInner>,
}

impl InputCaptureCancellation {
    /// A fresh, uncancelled signal.
    pub fn new() -> (token: Self) {
        InputCaptureCancellation {
            inner: Arc::new(
                InputCaptureCancellationInner {
                    cancelled: AtomicBool::new(false),
                    wait: new_wait_mutex(),
                    wake: new_condvar(),
                },
            ),
        }
    }

    /// Raises the shared flag and wakes any waiting capture.
    pub fn cancel(&self) {
        self.inner.cancelled.store(true, Ordering::Release);
        self.inner.wake_waiters();
    }

    /// Reads the shared flag.
    pub fn is_cancelled(&self) -> (cancelled: bool) {
        self.inner.cancelled.load(Ordering::Acquire)
    }

    /// Wakes a capture waiting on this token without cancelling it, as the
    /// audio callback does when the capture completes or fails.
    pub fn wake_waiters(&self) {
        self.inner.wake_waiters();
    }

    /// One wait of a capture on this token. Under the token's wait mutex the
    /// capture's progress is read; when the capture is over the wait ends at
    /// once. Otherwise, with no time left (`timeout` is `None`) it ends
    /// without parking, and with time left it parks until woken or until the
    /// timeout passes. Because the reading and the parking happen under the
    /// mutex that `wake_waiters` holds while notifying, no wake is lost.
    /// `Err` means the wait mutex was poisoned.
    pub fn wait_for_capture_event(
        &self,
        captured_samples: &AtomicU64,
        requested_samples: u64,
        terminal_stream_error: &AtomicBool,
        callback_format_error: &AtomicBool,
        timeout: Option<Duration>,
    ) -> (r: Result<CaptureWaitObservation, ()>)
        ensures
            r matches Ok(o) ==> {
                &&& o.over == (o.captured_samples >= requested_samples || o.terminal_stream_error
                    || o.callback_format_error || o.cancelled)
                &&& o.parked == (!o.over && timeout is Some)
                &&& !o.parked ==> !o.timed_out
            },
    {
        let guard = match lock_wait(&self.inner.wait) {
            Ok(guard) => guard,
            Err(_) => {
                return Err(());
            },
        };
        let captured = captured_samples.load(Ordering::Acquire);
        let terminal = terminal_stream_error.load(Ordering::Acquire);
        let format_error = callback_format_error.load(Ordering::Acquire);
        let cancelled = self.inner.cancelled.load(Ordering::Acquire);
        let over = capture_wait_is_over(captured, requested_samples, terminal, format_error, cancelled);
        let observation = CaptureWaitObservation {
            captured_samples: captured,
            terminal_stream_error: terminal,
            callback_format_error: format_error,
            cancelled,
            over,
            parked: false,
            timed_out: false,
        };
        if over {
            return Ok(observation);
        }
        match timeout {
            None => Ok(observation),
            Some(duration) => match park(&self.inner.wake, guard, duration) {
                Ok(timed_out) => Ok(CaptureWaitObservation { parked: true, timed_out, ..observation }),
                Err(()) => Err(()),
            },
        }
    }
}

/// What one wait of a capture read and how it ended.
#[derive(Clone, Copy, Debug, PartialEq, Eq)]
pub struct CaptureWaitObservation {
    /// The samples captured so far, as read under the wait mutex.
    pub captured_samples: u64,
    pub terminal_stream_error: bool,
    pub callback_format_error: bool,
    pub cancelled: bool,
    /// The capture is over: enough samples, a terminal stream error, a
    /// format error or a cancel.
    pub over: bool,
    /// The wait parked on the token's condition variable.
    pub parked: bool,
    /// The park ended because its timeout passed.
    pub timed_out: bool,
}

} // verus!
