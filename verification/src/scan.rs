//! The scan state: when the current device discovery was started, and how
//! a scan is reported.  Times are whole seconds since the Unix epoch.
use vstd::prelude::*;

verus! {

/// A discovery started longer ago than this many seconds is reported as
/// no longer running.
pub const SCAN_STALE_AFTER_SECS: u64 = 180;

/// The current time in seconds since the Unix epoch, from
/// `chrono::Local::now().timestamp()`.  Nothing is known of the value.
/// chrono panics when the system clock reads before the Unix epoch or the
/// local offset cannot be found; these depend on the machine alone, and no
/// argument rules them out.
#[verifier::external_body]
fn unix_now() -> u64 {
    chrono::Local::now().timestamp() as u64
}

/// How a scan is reported.
#[derive(Clone, Copy, Debug)]
pub struct Scan {
    /// Whether a discovery is reported running.
    pub starting: bool,
    /// When the last discovery was started, if one was.
    pub started_time: Option<u64>,
    /// How long the adapter stays discoverable, in seconds.
    pub timeout: u64,
}

/// Whether a scan is reported running: the adapter is discovering and no
/// discovery was started more than `SCAN_STALE_AFTER_SECS` seconds ago.
pub open spec fn reported_running(started: Option<u64>, discovering: bool, now: u64) -> bool {
    match started {
        Some(s) => discovering && now - s <= SCAN_STALE_AFTER_SECS,
        None => discovering,
    }
}

/// The report of a scan at time `now`.
pub open spec fn report_at(started: Option<u64>, discovering: bool, timeout: u64, now: u64) -> Scan {
    Scan {
        starting: reported_running(started, discovering, now),
        started_time: started,
        timeout: timeout,
    }
}

/// The report for a clock reading `now`, or that reading as the error
/// when it is earlier than the start of the current discovery.
pub open spec fn report_result(started: Option<u64>, discovering: bool, timeout: u64, now: u64) -> Result<
    Scan,
    u64,
> {
    match started {
        Some(t) => if now < t {
            Err(now)
        } else {
            Ok(report_at(started, discovering, timeout, now))
        },
        None => Ok(report_at(started, discovering, timeout, now)),
    }
}

/// The time the current discovery was started, if one was.
pub struct ScanClock {
    pub started: Option<u64>,
}

impl ScanClock {
    /// No discovery started yet.
    pub fn new() -> (c: ScanClock)
        ensures
            c.started is None,
    {
        ScanClock { started: None }
    }

    /// The report at time `now`, given whether the adapter is discovering
    /// and its discoverable timeout.
    pub fn report(&self, discovering: bool, timeout: u64, now: u64) -> (s: Scan)
        requires
            self.started matches Some(t) ==> t <= now,
        ensures
            s == report_at(self.started, discovering, timeout, now),
    {
        let mut running = discovering;
        match self.started {
            Some(t) => {
                let elapsed = now - t;
                if elapsed > SCAN_STALE_AFTER_SECS || !discovering {
                    running = false;
                }
            },
            None => {},
        }
        Scan { starting: running, started_time: self.started, timeout }
    }

    /// The report for a clock reading `now`; a reading earlier than the
    /// start of the current discovery is given back as the error.
    pub fn report_at_time(&self, discovering: bool, timeout: u64, now: u64) -> (r: Result<Scan, u64>)
        ensures
            r == report_result(self.started, discovering, timeout, now),
    {
        match self.started {
            Some(t) => {
                if now < t {
                    return Err(now);
                }
            },
            None => {},
        }
        Ok(self.report(discovering, timeout, now))
    }

    /// The report now: `report_at_time` for the clock's reading, so an
    /// error only when the clock reads earlier than the start of the
    /// current discovery, which cannot happen before a discovery was ever
    /// started.
    pub fn report_now(&self, discovering: bool, timeout: u64) -> (s: Result<Scan, u64>)
        ensures
            exists|now: u64| s == report_result(self.started, discovering, timeout, now),
            self.started is None ==> s == Ok::<Scan, u64>(
                (Scan { starting: discovering, started_time: None, timeout: timeout }),
            ),
    {
        let now = unix_now();
        self.report_at_time(discovering, timeout, now)
    }

    /// Starts a discovery at time `now` unless the adapter is already
    /// discovering; `current` is the report taken just before.  Gives the
    /// report to return and whether the discovery is to be launched.
    pub fn start(&mut self, discovering: bool, current: Scan, now: u64) -> (r: (Scan, bool))
        ensures
            discovering ==> r == (current, false) && final(self).started == old(self).started,
            !discovering ==> final(self).started == Some(now) && r == (
                Scan { starting: true, started_time: Some(now), timeout: current.timeout },
                true,
            ),
    {
        if discovering {
            return (current, false);
        }
        self.started = Some(now);
        (Scan { starting: true, started_time: Some(now), timeout: current.timeout }, true)
    }

    /// Starts a discovery now unless the adapter is already discovering.
    pub fn start_now(&mut self, discovering: bool, current: Scan) -> (r: (Scan, bool))
        ensures
            discovering ==> r == (current, false) && final(self).started == old(self).started,
            !discovering ==> exists|now: u64|
                final(self).started == Some(now) && r == (
                    Scan { starting: true, started_time: Some(now), timeout: current.timeout },
                    true,
                ),
    {
        let now = unix_now();
        self.start(discovering, current, now)
    }
}

/// A report always carries the recorded start time and the adapter's
/// timeout, whatever the adapter says of discovery; it reports a scan
/// running only while the adapter discovers, and, before any discovery was
/// started, exactly when the adapter discovers.
pub proof fn law_report_carries_start_and_timeout(
    started: Option<u64>,
    discovering: bool,
    timeout: u64,
    now: u64,
)
    ensures
        report_at(started, discovering, timeout, now).started_time == started,
        report_at(started, discovering, timeout, now).timeout == timeout,
        report_at(started, discovering, timeout, now).starting ==> discovering,
        started is None ==> report_at(started, discovering, timeout, now).starting == discovering,
        report_result(started, discovering, timeout, now) is Ok ==> report_result(
            started,
            discovering,
            timeout,
            now,
        )->Ok_0.started_time == started,
{
}

/// Once a discovery is started at `t0`, it is reported running as long as
/// the adapter discovers and no more than `SCAN_STALE_AFTER_SECS` seconds
/// have passed, and reported stopped afterwards.
pub proof fn law_started_scan_is_reported_until_stale(t0: u64, now: u64, timeout: u64)
    requires
        t0 <= now,
    ensures
        report_at(Some(t0), true, timeout, now).starting == (now - t0 <= SCAN_STALE_AFTER_SECS),
        !report_at(Some(t0), false, timeout, now).starting,
        report_at(Some(t0), true, timeout, now).started_time == Some(t0),
{
}

} // verus!
