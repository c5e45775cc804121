//! Messages for the user: notifications that are shown for a while, and
//! persistent messages that are shown once.

use vstd::prelude::*;

verus! {

pub enum LogKind {
    Notification,
    Persistent,
}

/// A notification with the time it was made and the time it is shown for,
/// both in milliseconds.
#[derive(Clone, Debug)]
pub struct TimedLog {
    pub time_created: u64,
    pub duration: u64,
    pub message: String,
}

/// Whether a notification made at `created` for `duration` is still shown
/// at `now`; a clock that ran backwards counts as no time passed.
pub open spec fn live(created: u64, duration: u64, now: u64) -> bool {
    if now >= created {
        now - created < duration
    } else {
        0 < duration
    }
}

/// The notifications among `logs` that are still shown at `now`.
pub open spec fn live_logs(logs: Seq<TimedLog>, now: u64) -> Seq<TimedLog> {
    logs.filter(|l: TimedLog| live(l.time_created, l.duration, now))
}

/// The time of the system clock, in milliseconds.
///
/// Trusted: `std::time::SystemTime::now` reads the system clock. Nothing is
/// claimed of the result.
#[verifier::external_body]
pub(crate) fn clock_millis() -> u64 {
    match std::time::SystemTime::now().duration_since(std::time::UNIX_EPOCH) {
        Ok(elapsed) => elapsed.as_millis() as u64,
        Err(_) => 0,
    }
}

pub struct LogManager {
    pub notifications: Vec<TimedLog>,
    pub persistent: Vec<String>,
}

impl LogManager {
    pub fn new() -> (m: Self)
        ensures
            m.notifications@.len() == 0,
            m.persistent@.len() == 0,
    {
        Self { notifications: Vec::new(), persistent: Vec::new() }
    }

    /// Adds a notification made at `now` that is shown for `duration`
    /// milliseconds.
    pub fn push_notification_at(&mut self, msg: String, duration: u64, now: u64)
        ensures
            final(self).notifications@ == old(self).notifications@.push(
                TimedLog { time_created: now, duration, message: msg },
            ),
            final(self).persistent == old(self).persistent,
    {
        self.notifications.push(TimedLog { time_created: now, duration, message: msg });
    }

    /// Adds a notification that is shown for `duration` milliseconds from
    /// now on, whatever the clock says now is.
    pub fn push_notification(&mut self, msg: String, duration: u64)
        ensures
            exists|now: u64|
                final(self).notifications@ == old(self).notifications@.push(
                    TimedLog { time_created: now, duration, message: msg },
                ),
            final(self).persistent == old(self).persistent,
    {
        let now = clock_millis();
        self.push_notification_at(msg, duration, now);
    }

    pub fn push_persistent(&mut self, msg: String)
        ensures
            final(self).persistent@ == old(self).persistent@.push(msg),
            final(self).notifications == old(self).notifications,
    {
        self.persistent.push(msg);
    }

    /// Drops the notifications that are no longer shown at `now` and
    /// returns the messages of those that are, in order.
    pub fn drain_notifications_at(&mut self, now: u64) -> (messages: Vec<String>)
        ensures
            final(self).notifications@ == live_logs(old(self).notifications@, now),
            messages@ == live_logs(old(self).notifications@, now).map_values(
                |l: TimedLog| l.message,
            ),
            final(self).persistent == old(self).persistent,
    {
        let mut kept: Vec<TimedLog> = Vec::new();
        let mut messages: Vec<String> = Vec::new();
        let mut i: usize = 0;
        let ghost logs = self.notifications@;
        proof {
            assert(logs.subrange(0, 0) =~= Seq::<TimedLog>::empty());
            reveal(Seq::filter);
        }
        while i < self.notifications.len()
            invariant
                i <= self.notifications.len(),
                logs == self.notifications@,
                self.persistent == old(self).persistent,
                kept@ == live_logs(logs.subrange(0, i as int), now),
                messages@ == kept@.map_values(|l: TimedLog| l.message),
            decreases self.notifications.len() - i,
        {
            let log = &self.notifications[i];
            let shown = if now >= log.time_created {
                now - log.time_created < log.duration
            } else {
                0 < log.duration
            };
            proof {
                let next = logs.subrange(0, i + 1);
                assert(next.drop_last() =~= logs.subrange(0, i as int));
                assert(next.last() == logs[i as int]);
                reveal(Seq::filter);
            }
            if shown {
                let ghost before = messages@;
                let message = log.message.clone();
                messages.push(message);
                kept.push(
                    TimedLog {
                        time_created: log.time_created,
                        duration: log.duration,
                        message: log.message.clone(),
                    },
                );
                assert(messages@ =~= kept@.map_values(|l: TimedLog| l.message));
            }
            i = i + 1;
        }
        assert(logs.subrange(0, i as int) =~= logs);
        self.notifications = kept;
        messages
    }

    /// Drops the notifications that are no longer shown now and returns the
    /// messages of those that are, whatever the clock says now is.
    pub fn drain_notifications(&mut self) -> (messages: Vec<String>)
        ensures
            exists|now: u64|
                {
                    &&& final(self).notifications@ == live_logs(old(self).notifications@, now)
                    &&& messages@ == live_logs(old(self).notifications@, now).map_values(
                        |l: TimedLog| l.message,
                    )
                },
            final(self).persistent == old(self).persistent,
    {
        let now = clock_millis();
        self.drain_notifications_at(now)
    }

    /// Returns the persistent messages and forgets them.
    pub fn drain_persistent(&mut self) -> (messages: Vec<String>)
        ensures
            messages == old(self).persistent,
            final(self).persistent@.len() == 0,
            final(self).notifications == old(self).notifications,
    {
        let mut messages: Vec<String> = Vec::new();
        std::mem::swap(&mut self.persistent, &mut messages);
        messages
    }
}

} // verus!
