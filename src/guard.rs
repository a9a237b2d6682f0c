use vstd::prelude::*;

verus! {

/// Where the alert mail of a guarded writer goes, and how to reach the relay.
pub struct SmtpConfig {
    pub smtp_server: String,
    pub smtp_user: String,
    pub smtp_pass: String,
    pub to: String,
    pub from: String,
}

/// True when more than `interval` milliseconds have passed from `start` to `now`.
pub open spec fn window_elapsed(start: u64, now: u64, interval: u64) -> bool {
    now > start + interval
}

/// The attempt counter and window start after one write attempt at `now`: a
/// window that has run out starts afresh at `now`, with this attempt its first.
pub open spec fn after_attempt(count: nat, start: u64, now: u64, interval: u64) -> (nat, u64) {
    if window_elapsed(start, now, interval) {
        (1, now)
    } else if count < usize::MAX {
        (count + 1, start)
    } else {
        (count, start)
    }
}

/// Whether each of a series of write attempts, made at the given times, is let
/// through, from a window that started at `start` and has seen `count` attempts.
pub open spec fn admissions(limit: nat, interval: u64, start: u64, count: nat, times: Seq<u64>) -> Seq<
    bool,
>
    decreases times.len(),
{
    if times.len() == 0 {
        Seq::empty()
    } else {
        let (c, s) = after_attempt(count, start, times[0], interval);
        seq![c <= limit] + admissions(limit, interval, s, c, times.drop_first())
    }
}

/// The failure counter, whether an alert is still owed, and whether one is sent
/// now, after a write whose outcome is `ok`. An alert goes out once the run of
/// failures reaches the threshold, and again only after a success.
pub open spec fn after_outcome(failures: nat, armed: bool, ok: bool, threshold: nat) -> (
    nat,
    bool,
    bool,
) {
    if ok {
        (0, true, false)
    } else {
        let f = if failures < usize::MAX {
            failures + 1
        } else {
            failures
        };
        let alert = armed && f >= threshold;
        (f, armed && !alert, alert)
    }
}

/// Whether each write of a series, with the given outcomes, sends an alert.
pub open spec fn alerts(threshold: nat, failures: nat, armed: bool, oks: Seq<bool>) -> Seq<bool>
    decreases oks.len(),
{
    if oks.len() == 0 {
        Seq::empty()
    } else {
        let (f, a, alert) = after_outcome(failures, armed, oks[0], threshold);
        seq![alert] + alerts(threshold, f, a, oks.drop_first())
    }
}

/// For each write of a series with the given outcomes, the number of failures
/// in a row that end with it (zero after a success), `run` failures having come
/// before the series.
pub open spec fn failure_runs(run: nat, oks: Seq<bool>) -> Seq<nat>
    decreases oks.len(),
{
    if oks.len() == 0 {
        Seq::empty()
    } else {
        let r = if oks[0] {
            0
        } else {
            run + 1
        };
        seq![r] + failure_runs(r, oks.drop_first())
    }
}

/// The decisions that guard a log writer: when to rotate its file, when to
/// refuse a write within the rate window, and when to send an alert.
pub struct WriteGuard {
    max_file_size: u64,
    rate_limit: usize,
    interval_millis: u64,
    alert_threshold: usize,
    write_count: usize,
    window_start: u64,
    consecutive_failures: usize,
    armed: bool,
}

impl WriteGuard {
    pub closed spec fn spec_max_file_size(&self) -> u64 {
        self.max_file_size
    }

    pub closed spec fn spec_rate_limit(&self) -> nat {
        self.rate_limit as nat
    }

    pub closed spec fn spec_interval(&self) -> u64 {
        self.interval_millis
    }

    pub closed spec fn spec_alert_threshold(&self) -> nat {
        self.alert_threshold as nat
    }

    pub closed spec fn spec_write_count(&self) -> nat {
        self.write_count as nat
    }

    pub closed spec fn spec_window_start(&self) -> u64 {
        self.window_start
    }

    pub closed spec fn spec_failures(&self) -> nat {
        self.consecutive_failures as nat
    }

    pub closed spec fn spec_armed(&self) -> bool {
        self.armed
    }

    /// The settings are the same in both.
    pub open spec fn same_settings(&self, other: &WriteGuard) -> bool {
        &&& self.spec_max_file_size() == other.spec_max_file_size()
        &&& self.spec_rate_limit() == other.spec_rate_limit()
        &&& self.spec_interval() == other.spec_interval()
        &&& self.spec_alert_threshold() == other.spec_alert_threshold()
    }

    /// A guard whose first rate window starts at `now_millis`, with no attempt
    /// and no failure counted.
    pub fn new(
        max_file_size: u64,
        rate_limit: usize,
        interval_millis: u64,
        alert_threshold: usize,
        now_millis: u64,
    ) -> (r: Self)
        ensures
            r.spec_max_file_size() == max_file_size,
            r.spec_rate_limit() == rate_limit,
            r.spec_interval() == interval_millis,
            r.spec_alert_threshold() == alert_threshold,
            r.spec_write_count() == 0,
            r.spec_window_start() == now_millis,
            r.spec_failures() == 0,
            r.spec_armed(),
    {
        WriteGuard {
            max_file_size,
            rate_limit,
            interval_millis,
            alert_threshold,
            write_count: 0,
            window_start: now_millis,
            consecutive_failures: 0,
            armed: true,
        }
    }

    /// Whether a file of `file_size` bytes is rotated before the next write.
    pub fn should_rotate(&self, file_size: u64) -> (r: bool)
        ensures
            r == (file_size > self.spec_max_file_size()),
    {
        file_size > self.max_file_size
    }

    /// Counts a write attempt made at `now_millis` and says whether it may go
    /// through: it may while the window's count, this attempt included, stays
    /// within the limit.
    pub fn rate_limit(&mut self, now_millis: u64) -> (r: bool)
        ensures
            final(self).same_settings(old(self)),
            final(self).spec_failures() == old(self).spec_failures(),
            final(self).spec_armed() == old(self).spec_armed(),
            (final(self).spec_write_count(), final(self).spec_window_start()) == after_attempt(
                old(self).spec_write_count(),
                old(self).spec_window_start(),
                now_millis,
                old(self).spec_interval(),
            ),
            r == (final(self).spec_write_count() <= old(self).spec_rate_limit()),
    {
        let elapsed = now_millis > self.window_start && now_millis - self.window_start
            > self.interval_millis;
        if elapsed {
            self.write_count = 0;
            self.window_start = now_millis;
        }
        if self.write_count < usize::MAX {
            self.write_count = self.write_count + 1;
        }
        self.write_count <= self.rate_limit
    }

    /// Counts the outcome of a write that went through, and says whether an
    /// alert is to be sent now.
    pub fn record(&mut self, ok: bool) -> (alert: bool)
        ensures
            final(self).same_settings(old(self)),
            final(self).spec_write_count() == old(self).spec_write_count(),
            final(self).spec_window_start() == old(self).spec_window_start(),
            (final(self).spec_failures(), final(self).spec_armed(), alert) == after_outcome(
                old(self).spec_failures(),
                old(self).spec_armed(),
                ok,
                old(self).spec_alert_threshold(),
            ),
    {
        if ok {
            self.consecutive_failures = 0;
            self.armed = true;
            false
        } else {
            if self.consecutive_failures < usize::MAX {
                self.consecutive_failures = self.consecutive_failures + 1;
            }
            let alert = self.armed && self.consecutive_failures >= self.alert_threshold;
            self.armed = self.armed && !alert;
            alert
        }
    }

    /// The failures in a row so far.
    pub fn failures(&self) -> (r: usize)
        ensures
            r == self.spec_failures(),
    {
        self.consecutive_failures
    }
}

proof fn lemma_admissions_in_window(
    limit: nat,
    interval: u64,
    start: u64,
    count: nat,
    times: Seq<u64>,
)
    requires
        limit <= usize::MAX,
        count + times.len() <= usize::MAX,
        forall|i: int| 0 <= i < times.len() ==> !window_elapsed(start, #[trigger] times[i], interval),
    ensures
        admissions(limit, interval, start, count, times).len() == times.len(),
        forall|i: int|
            0 <= i < times.len() ==> #[trigger] admissions(limit, interval, start, count, times)[i]
                == (count + i + 1 <= limit),
    decreases times.len(),
{
    if times.len() > 0 {
        let rest = times.drop_first();
        assert forall|i: int| 0 <= i < rest.len() implies !window_elapsed(
            start,
            #[trigger] rest[i],
            interval,
        ) by {
            assert(rest[i] == times[i + 1]);
        }
        lemma_admissions_in_window(limit, interval, start, count + 1, rest);
        let a = admissions(limit, interval, start, count, times);
        assert forall|i: int| 0 <= i < times.len() implies #[trigger] a[i] == (count + i + 1
            <= limit) by {
            if i > 0 {
                assert(a[i] == admissions(limit, interval, start, count + 1, rest)[i - 1]);
            }
        }
    }
}

/// Within a window that has not run out, the first `limit` attempts go through
/// and every later one is refused, the `limit + 1`-th first; once the window has
/// run out, counting starts again from one, whatever was counted before.
pub proof fn lemma_rate_limit_window(
    limit: usize,
    interval: u64,
    start: u64,
    count: nat,
    times: Seq<u64>,
)
    requires
        times.len() <= usize::MAX,
    ensures
        (forall|i: int| 0 <= i < times.len() ==> !window_elapsed(start, #[trigger] times[i], interval))
            ==> forall|i: int|
            0 <= i < times.len() ==> #[trigger] admissions(limit as nat, interval, start, 0, times)[i]
                == (i + 1 <= limit),
        times.len() > 0 && window_elapsed(start, times[0], interval) && (forall|i: int|
            1 <= i < times.len() ==> !window_elapsed(times[0], #[trigger] times[i], interval))
            ==> forall|i: int|
            0 <= i < times.len() ==> #[trigger] admissions(limit as nat, interval, start, count, times)[i]
                == (i + 1 <= limit),
{
    if forall|i: int| 0 <= i < times.len() ==> !window_elapsed(start, #[trigger] times[i], interval) {
        lemma_admissions_in_window(limit as nat, interval, start, 0, times);
    }
    if times.len() > 0 && window_elapsed(start, times[0], interval) && (forall|i: int|
        1 <= i < times.len() ==> !window_elapsed(times[0], #[trigger] times[i], interval)) {
        let rest = times.drop_first();
        assert forall|i: int| 0 <= i < rest.len() implies !window_elapsed(
            times[0],
            #[trigger] rest[i],
            interval,
        ) by {
            assert(rest[i] == times[i + 1]);
        }
        lemma_admissions_in_window(limit as nat, interval, times[0], 1, rest);
        let a = admissions(limit as nat, interval, start, count, times);
        assert forall|i: int| 0 <= i < times.len() implies #[trigger] a[i] == (i + 1 <= limit) by {
            if i > 0 {
                assert(a[i] == admissions(limit as nat, interval, times[0], 1, rest)[i - 1]);
            }
        }
    }
}

proof fn lemma_alerts_from(threshold: nat, failures: nat, armed: bool, run: nat, oks: Seq<bool>)
    requires
        threshold <= usize::MAX,
        failures == if run < usize::MAX {
            run
        } else {
            usize::MAX as nat
        },
        armed == (run < if threshold == 0 {
            1
        } else {
            threshold
        }),
    ensures
        alerts(threshold, failures, armed, oks).len() == oks.len(),
        failure_runs(run, oks).len() == oks.len(),
        forall|i: int|
            0 <= i < oks.len() ==> #[trigger] alerts(threshold, failures, armed, oks)[i] == (!oks[i]
                && failure_runs(run, oks)[i] == if threshold == 0 {
                1
            } else {
                threshold
            }),
    decreases oks.len(),
{
    if oks.len() > 0 {
        let (f, a, alert) = after_outcome(failures, armed, oks[0], threshold);
        let r = if oks[0] {
            0
        } else {
            run + 1
        };
        let rest = oks.drop_first();
        lemma_alerts_from(threshold, f, a, r, rest);
        let al = alerts(threshold, failures, armed, oks);
        let fr = failure_runs(run, oks);
        assert forall|i: int| 0 <= i < oks.len() implies #[trigger] al[i] == (!oks[i] && fr[i]
            == if threshold == 0 {
            1
        } else {
            threshold
        }) by {
            if i > 0 {
                assert(al[i] == alerts(threshold, f, a, rest)[i - 1]);
                assert(fr[i] == failure_runs(r, rest)[i - 1]);
                assert(rest[i - 1] == oks[i]);
            }
        }
    }
}

/// From a fresh guard, a write sends an alert exactly when it fails and the
/// failures in a row that end with it first reach the threshold (at least one):
/// later failures send none until a success starts the count again.
pub proof fn lemma_alert_once_per_run(threshold: usize, oks: Seq<bool>)
    ensures
        alerts(threshold as nat, 0, true, oks).len() == oks.len(),
        forall|i: int|
            0 <= i < oks.len() ==> #[trigger] alerts(threshold as nat, 0, true, oks)[i] == (!oks[i]
                && failure_runs(0, oks)[i] == if threshold == 0 {
                1
            } else {
                threshold as nat
            }),
{
    lemma_alerts_from(threshold as nat, 0, true, 0, oks);
}

} // verus!
