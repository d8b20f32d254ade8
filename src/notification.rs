use std::collections::VecDeque;

use vstd::prelude::*;

verus! {

/// The severity of a notification.
#[derive(Debug, Clone, Copy, PartialEq, Eq, Structural)]
pub enum NotificationType {
    Info,
    Warning,
    Error,
}

pub open spec fn duration_of(level: NotificationType) -> u64 {
    match level {
        NotificationType::Error => 10,
        NotificationType::Warning => 7,
        NotificationType::Info => 5,
    }
}

/// A message shown for a time that depends on its severity. Times are in milliseconds of a
/// monotonic clock that the caller reads.
#[derive(Debug, Clone)]
pub struct Notification {
    pub message: String,
    pub level: NotificationType,
    pub created_ms: u64,
    pub duration_secs: u64,
}

impl Notification {
    pub fn new(message: &str, notification_level: NotificationType, now_ms: u64) -> (r: Self)
        ensures
            r.message@ == message@,
            r.level == notification_level,
            r.created_ms == now_ms,
            r.duration_secs == duration_of(notification_level),
    {
        let duration = Self::notification_duration(notification_level);
        Notification { message: message.to_owned(), level: notification_level, created_ms: now_ms, duration_secs: duration }
    }

    /// Whether the notification's time is over at `now_ms`.
    pub fn is_expired(&self, now_ms: u64) -> (r: bool)
        ensures
            r == (now_ms as int - self.created_ms as int >= self.duration_secs as int * 1000),
    {
        if now_ms < self.created_ms {
            return false;
        }
        let elapsed = now_ms - self.created_ms;
        if self.duration_secs > u64::MAX / 1000 {
            return false;
        }
        elapsed >= self.duration_secs * 1000
    }

    pub fn notification_duration(level: NotificationType) -> (r: u64)
        ensures
            r == duration_of(level),
    {
        match level {
            NotificationType::Error => 10,
            NotificationType::Warning => 7,
            NotificationType::Info => 5,
        }
    }
}

/// The notifications on screen, newest first, at most `MAX_NOTIFICATION_SIZE` of them.
pub struct NotificationManager {
    pub notifications: VecDeque<Notification>,
}

impl NotificationManager {
    pub const MAX_NOTIFICATION_SIZE: usize = 5;

    pub fn new() -> (r: Self)
        ensures
            r.notifications@.len() == 0,
    {
        NotificationManager { notifications: VecDeque::new() }
    }

    /// Shows a notification first; when there are then more than `MAX_NOTIFICATION_SIZE`, the
    /// oldest one goes.
    pub fn add(&mut self, notification: Notification)
        ensures
            final(self).notifications@ == if old(self).notifications@.len() + 1 > 5 {
                (seq![notification] + old(self).notifications@).drop_last()
            } else {
                seq![notification] + old(self).notifications@
            },
    {
        let ghost before = self.notifications@;
        self.notifications.push_front(notification);
        assert(self.notifications@ =~= seq![notification] + before);
        if self.notifications.len() > Self::MAX_NOTIFICATION_SIZE {
            self.notifications.pop_back();
            assert(self.notifications@ =~= (seq![notification] + before).drop_last());
        }
    }

    /// Drops every notification whose time is over at `now_ms`, keeping the others in order.
    pub fn remove_expired(&mut self, now_ms: u64)
        ensures
            final(self).notifications@ == old(self).notifications@.filter(|n: Notification| !(now_ms as int - n.created_ms as int >= n.duration_secs as int * 1000)),
    {
        let ghost before = self.notifications@;
        let mut kept: VecDeque<Notification> = VecDeque::new();
        let n = self.notifications.len();
        let mut i: usize = 0;
        proof {
            reveal(Seq::filter);
            assert(before.take(0) =~= Seq::<Notification>::empty());
        }
        while i < n
            invariant
                n == before.len(),
                i <= n,
                self.notifications@ == before.skip(i as int),
                kept@ == before.take(i as int).filter(|n: Notification| !(now_ms as int - n.created_ms as int >= n.duration_secs as int * 1000)),
            decreases n - i,
        {
            let item = self.notifications.pop_front();
            proof {
                reveal(Seq::filter);
                assert(before.take(i + 1).drop_last() =~= before.take(i as int));
                assert(self.notifications@ =~= before.skip(i + 1));
            }
            match item {
                Some(t) => {
                    assert(t == before[i as int]);
                    if !t.is_expired(now_ms) {
                        kept.push_back(t);
                    }
                },
                None => {},
            }
            i = i + 1;
        }
        assert(before.take(n as int) =~= before);
        self.notifications = kept;
    }
}

} // verus!
