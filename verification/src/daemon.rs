use vstd::prelude::*;
use crate::config::{Config, home_ok, state_file_of};
use crate::text::{
    chars_of, contains_chars, contains_run, decimal_string, decimal_text, is_digit,
    lemma_decimal_string_reads_back, lemma_trim_unchanged, parse_u32, parse_u32_chars,
    parse_u32_spec, same_text, split_chars, split_on, trim, trim_text, unsigned_digits,
};

verus! {

broadcast use vstd::string::group_string_axioms;

/// How many times in a row the daily summary may fail before it is given
/// up for the day.
pub const MAX_SUMMARY_RETRIES: u32 = 5;

/// The lower-case form of `s`, by the Unicode `Lowercase` property, as
/// `str::to_lowercase` gives it.
pub uninterp spec fn unicode_lowercase(s: Seq<char>) -> Seq<char>;

/// `str::to_lowercase`: the lower-case equivalent of `s`, which depends on
/// `s` alone; what it is for each character is not stated.
#[verifier::external_body]
fn to_lowercase(s: &str) -> (r: String)
    ensures
        r@ == unicode_lowercase(s@),
{
    s.to_lowercase()
}

/// Whether a process whose command name is `comm` is a Sauron process:
/// its lower-case form contains `sauron`.
pub fn is_sauron_command(comm: &str) -> (r: bool)
    ensures
        r == contains_run(unicode_lowercase(comm@), "sauron"@),
{
    let lower = to_lowercase(comm);
    let hay = chars_of(lower.as_str());
    let needle = chars_of("sauron");
    contains_chars(&hay, &needle)
}

/// The numbers among the pieces `parts`, in order; pieces that are not a
/// `u32` are skipped.
pub open spec fn parsed_numbers(parts: Seq<Seq<char>>) -> Seq<u32>
    decreases parts.len(),
{
    if parts.len() == 0 {
        Seq::empty()
    } else {
        let p = parsed_numbers(parts.drop_last());
        match parse_u32_spec(parts.last()) {
            Some(v) => p.push(v),
            None => p,
        }
    }
}

/// The hour and minute of the daily summary time `s`: the first and second
/// numbers among its `:`-separated pieces, 23 and 59 when missing.
pub open spec fn daily_time_of(s: Seq<char>) -> (u32, u32) {
    let n = parsed_numbers(split_on(s, ':'));
    (
        if n.len() >= 1 {
            n[0]
        } else {
            23
        },
        if n.len() >= 2 {
            n[1]
        } else {
            59
        },
    )
}

/// What a capture tick does.
#[derive(Debug, PartialEq, Eq, Clone, Copy)]
pub enum CaptureTick {
    /// Captures are paused: skip this tick.
    Paused,
    /// It is outside the active hours: skip this tick.
    Inactive,
    /// Take the screenshots.
    Capture,
}

/// What the single-instance check at start-up concludes.
#[derive(Debug, PartialEq, Eq, Clone, Copy)]
pub enum StartCheck {
    /// No other daemon is known: start.
    Start,
    /// The PID file names another process, which must be looked at.
    Inspect(u32),
}

/// The decision of the capture loop for a tick: paused beats inactive.
pub open spec fn capture_tick_spec(paused: bool, active: bool) -> CaptureTick {
    if paused {
        CaptureTick::Paused
    } else if !active {
        CaptureTick::Inactive
    } else {
        CaptureTick::Capture
    }
}

/// The Sauron daemon: it captures screenshots on a timer and writes the
/// daily summary.
pub struct Daemon {
    pub config: Config,
}

impl Daemon {
    pub fn new(config: Config) -> (d: Self)
        ensures
            d.config == config,
    {
        Daemon { config }
    }

    /// Reads the daily summary time `time_str`: the first two pieces between
    /// `:` that are numbers give the hour and minute.
    pub fn parse_daily_time(time_str: &str) -> (r: (u32, u32))
        ensures
            r == daily_time_of(time_str@),
    {
        let v = chars_of(time_str);
        let parts = split_chars(&v, ':');
        let ghost pv = parts@.map_values(|p: Vec<char>| p@);
        let mut nums: Vec<u32> = Vec::new();
        let mut i: usize = 0;
        while i < parts.len()
            invariant
                i <= parts.len(),
                pv == parts@.map_values(|p: Vec<char>| p@),
                nums@ == parsed_numbers(pv.take(i as int)),
            decreases parts.len() - i,
        {
            assert(pv.take(i + 1).drop_last() =~= pv.take(i as int));
            assert(pv.take(i + 1).last() == parts@[i as int]@);
            match parse_u32_chars(&parts[i]) {
                Some(n) => nums.push(n),
                None => {},
            }
            i = i + 1;
        }
        assert(pv.take(parts.len() as int) =~= pv);
        let h = if nums.len() >= 1 {
            nums[0]
        } else {
            23
        };
        let m = if nums.len() >= 2 {
            nums[1]
        } else {
            59
        };
        (h, m)
    }

    /// What a capture tick does, given whether captures are paused and
    /// whether it is within the active hours.
    pub fn capture_tick_for(paused: bool, active: bool) -> (r: CaptureTick)
        ensures
            r == capture_tick_spec(paused, active),
    {
        if paused {
            CaptureTick::Paused
        } else if !active {
            CaptureTick::Inactive
        } else {
            CaptureTick::Capture
        }
    }

    /// What the capture loop does now: nothing while the pause file exists,
    /// nothing outside the active hours, and otherwise capture. The active
    /// hours are only looked at when captures are not paused.
    pub fn capture_tick(&self) -> (r: CaptureTick)
        ensures
            r == CaptureTick::Paused || exists|t: int|
                0 <= t < 24 * 60 && #[trigger] self.config.capture.active_at(t) == (r
                    == CaptureTick::Capture),
    {
        if Config::is_paused() {
            return CaptureTick::Paused;
        }
        let active = self.config.is_within_active_hours();
        Self::capture_tick_for(false, active)
    }

    /// The single-instance check: with the PID `existing` read from the PID
    /// file and the daemon's own `own_pid`, whether another process must be
    /// looked at before starting.
    pub fn start_check(existing: Option<u32>, own_pid: u32) -> (r: StartCheck)
        ensures
            r == (match existing {
                Some(p) => if p != own_pid {
                    StartCheck::Inspect(p)
                } else {
                    StartCheck::Start
                },
                None => StartCheck::Start,
            }),
    {
        match existing {
            Some(p) => if p != own_pid {
                StartCheck::Inspect(p)
            } else {
                StartCheck::Start
            },
            None => StartCheck::Start,
        }
    }

    /// The PID file, `sauron.pid` in the directory for Sauron's own files.
    pub fn pid_path() -> (r: String)
        ensures
            exists|h: Option<Seq<char>>|
                home_ok(h) && r@ == #[trigger] state_file_of(h, "sauron.pid"@),
    {
        Config::state_file("sauron.pid")
    }

    /// What the PID file holds for the process `pid`: its decimal digits.
    pub fn pid_file_contents(pid: u32) -> (r: String)
        ensures
            r@ == decimal_string(pid as nat),
    {
        decimal_text(pid as u64)
    }

    /// The PID that the PID file's `contents` name: the text without
    /// surrounding white space, read as a `u32`.
    pub fn parse_pid(contents: &str) -> (r: Option<u32>)
        ensures
            r == parse_u32_spec(trim(contents@)),
    {
        let t = trim_text(contents);
        parse_u32(t.as_str())
    }
}

/// The PID file reads back as the PID written into it.
pub proof fn lemma_pid_file_round_trip(pid: u32)
    ensures
        parse_u32_spec(trim(decimal_string(pid as nat))) == Some(pid),
{
    let s = decimal_string(pid as nat);
    lemma_decimal_string_reads_back(pid as nat);
    assert(is_digit(s[0]));
    assert(is_digit(s[s.len() - 1]));
    lemma_trim_unchanged(s);
    assert(unsigned_digits(s) == s);
}

// ---------------------------------------------------------------------
// The daily summary schedule
// ---------------------------------------------------------------------

/// What the daily summary loop decides on a tick.
#[derive(Debug, PartialEq, Eq, Clone, Copy)]
pub enum SummaryCheck {
    /// Today's summary has been made (or given up): nothing to do.
    AlreadyDone,
    /// The summary time has not come yet today.
    TooEarly,
    /// Make today's summary now.
    Due,
}

/// The state of the daily summary loop, as a mathematical value.
pub struct ScheduleState {
    /// The hour of the daily summary time.
    pub target_hour: u32,
    /// The minute of the daily summary time.
    pub target_minute: u32,
    /// The last day whose summary was made or given up.
    pub last: Option<Seq<char>>,
    /// How many times in a row today's summary has failed.
    pub retries: u32,
}

impl ScheduleState {
    /// Fewer failures are counted than lead to giving up.
    pub open spec fn wf(self) -> bool {
        self.retries < MAX_SUMMARY_RETRIES
    }
}

/// What the loop decides at `hour:minute` on the day `today`: nothing when
/// that day is done, nothing before the summary time, and otherwise make
/// the summary.
pub open spec fn check_spec(s: ScheduleState, today: Seq<char>, hour: u32, minute: u32) -> SummaryCheck {
    if s.last == Some(today) {
        SummaryCheck::AlreadyDone
    } else if hour < s.target_hour || (hour == s.target_hour && minute < s.target_minute) {
        SummaryCheck::TooEarly
    } else {
        SummaryCheck::Due
    }
}

/// The state after finding no screenshot summaries for `today`: the day is
/// done.
pub open spec fn after_no_entries(s: ScheduleState, today: Seq<char>) -> ScheduleState {
    ScheduleState { last: Some(today), ..s }
}

/// The state after today's summary was made: the day is done and the
/// failures are forgotten.
pub open spec fn after_success(s: ScheduleState, today: Seq<char>) -> ScheduleState {
    ScheduleState { last: Some(today), retries: 0, ..s }
}

/// Whether one more failure from `s` gives up on the day.
pub open spec fn gives_up(s: ScheduleState) -> bool {
    s.retries + 1 >= MAX_SUMMARY_RETRIES
}

/// The state after today's summary failed: one more failure is counted,
/// and at the limit the day is given up and the count starts again.
pub open spec fn after_failure(s: ScheduleState, today: Seq<char>) -> ScheduleState {
    if gives_up(s) {
        ScheduleState { last: Some(today), retries: 0, ..s }
    } else {
        ScheduleState { retries: (s.retries + 1) as u32, ..s }
    }
}

/// The state after `k` failures in a row on `today`.
pub open spec fn after_failures(s: ScheduleState, today: Seq<char>, k: nat) -> ScheduleState
    decreases k,
{
    if k == 0 {
        s
    } else {
        after_failure(after_failures(s, today, (k - 1) as nat), today)
    }
}

/// Every step of the daily summary loop keeps the failure count below the
/// limit.
pub proof fn lemma_schedule_steps_keep_wf(s: ScheduleState, today: Seq<char>)
    requires
        s.wf(),
    ensures
        after_no_entries(s, today).wf(),
        after_success(s, today).wf(),
        after_failure(s, today).wf(),
{
}

/// At most one summary a day: once the day has been summarised, found
/// empty, or given up, every later check on that day says it is done,
/// whatever the time.
pub proof fn lemma_one_summary_per_day(s: ScheduleState, today: Seq<char>, hour: u32, minute: u32)
    ensures
        check_spec(after_success(s, today), today, hour, minute) == SummaryCheck::AlreadyDone,
        check_spec(after_no_entries(s, today), today, hour, minute) == SummaryCheck::AlreadyDone,
        gives_up(s) ==> check_spec(after_failure(s, today), today, hour, minute)
            == SummaryCheck::AlreadyDone,
{
}

/// When the summary is made: on a day not yet done, the check says `Due`
/// exactly when the clock time `hour:minute` is at or after the summary time
/// (comparing hours first, then minutes), and `TooEarly` exactly when it is
/// before; on a day already done it says `AlreadyDone`, whatever the time.
pub proof fn lemma_due_at_or_after_summary_time(
    s: ScheduleState,
    today: Seq<char>,
    hour: u32,
    minute: u32,
)
    ensures
        s.last == Some(today) ==> check_spec(s, today, hour, minute) == SummaryCheck::AlreadyDone,
        s.last != Some(today) ==> (check_spec(s, today, hour, minute) == SummaryCheck::Due <==> (
        hour > s.target_hour || (hour == s.target_hour && minute >= s.target_minute))),
        s.last != Some(today) ==> (check_spec(s, today, hour, minute) == SummaryCheck::TooEarly
            <==> !(hour > s.target_hour || (hour == s.target_hour && minute >= s.target_minute))),
        s.last != Some(today) && minute < 60 && s.target_minute < 60 ==> (check_spec(
            s,
            today,
            hour,
            minute,
        ) == SummaryCheck::Due <==> hour * 60 + minute >= s.target_hour * 60 + s.target_minute),
{
    if s.last != Some(today) && minute < 60 && s.target_minute < 60 {
        let (h, m, th, tm) = (hour as int, minute as int, s.target_hour as int, s.target_minute as int);
        assert((h > th || (h == th && m >= tm)) <==> h * 60 + m >= th * 60 + tm) by (nonlinear_arith)
            requires
                0 <= m < 60,
                0 <= tm < 60,
                h >= 0,
                th >= 0,
        ;
    }
}

/// A day is given up after exactly `MAX_SUMMARY_RETRIES` failures in a row:
/// before that the day stays open and the failures are counted; at the
/// limit the day is done and the count is back at zero.
pub proof fn lemma_give_up_after_max_retries(s: ScheduleState, today: Seq<char>, k: nat)
    requires
        s.retries == 0,
        k <= MAX_SUMMARY_RETRIES,
    ensures
        k < MAX_SUMMARY_RETRIES ==> after_failures(s, today, k).last == s.last
            && after_failures(s, today, k).retries == k,
        k == MAX_SUMMARY_RETRIES ==> after_failures(s, today, k).last == Some(today)
            && after_failures(s, today, k).retries == 0,
    decreases k,
{
    if k > 0 {
        lemma_give_up_after_max_retries(s, today, (k - 1) as nat);
    }
}

/// The state of the daily summary loop: the summary time, the last day
/// done, and the failures so far today.
pub struct SummaryScheduler {
    target_hour: u32,
    target_minute: u32,
    last_summary_date: Option<String>,
    retry_count: u32,
}

impl SummaryScheduler {
    #[verifier::type_invariant]
    spec fn retries_below_limit(self) -> bool {
        self.retry_count < MAX_SUMMARY_RETRIES
    }

    /// The state as a mathematical value.
    pub closed spec fn state(self) -> ScheduleState {
        ScheduleState {
            target_hour: self.target_hour,
            target_minute: self.target_minute,
            last: match self.last_summary_date {
                Some(d) => Some(d@),
                None => None,
            },
            retries: self.retry_count,
        }
    }

    /// A fresh loop for the daily summary time `daily_time`: no day done,
    /// no failures.
    pub fn new(daily_time: &str) -> (s: Self)
        ensures
            s.state() == (ScheduleState {
                target_hour: daily_time_of(daily_time@).0,
                target_minute: daily_time_of(daily_time@).1,
                last: None,
                retries: 0,
            }),
    {
        let (h, m) = Daemon::parse_daily_time(daily_time);
        SummaryScheduler { target_hour: h, target_minute: m, last_summary_date: None, retry_count: 0 }
    }

    /// The daily summary time as hour and minute.
    pub fn target(&self) -> (r: (u32, u32))
        ensures
            r == (self.state().target_hour, self.state().target_minute),
    {
        (self.target_hour, self.target_minute)
    }

    /// How many times in a row today's summary has failed; always below
    /// `MAX_SUMMARY_RETRIES`.
    pub fn retries(&self) -> (r: u32)
        ensures
            r == self.state().retries,
            self.state().wf(),
    {
        proof {
            use_type_invariant(self);
        }
        self.retry_count
    }

    /// Whether `today` is the last day done.
    fn is_done_on(&self, today: &str) -> (r: bool)
        ensures
            r == (self.state().last == Some(today@)),
    {
        match &self.last_summary_date {
            Some(d) => same_text(d.as_str(), today),
            None => false,
        }
    }

    /// What the loop does at `hour:minute` on the day `today`.
    pub fn check(&self, today: &str, hour: u32, minute: u32) -> (r: SummaryCheck)
        ensures
            r == check_spec(self.state(), today@, hour, minute),
    {
        if self.is_done_on(today) {
            SummaryCheck::AlreadyDone
        } else if hour < self.target_hour || (hour == self.target_hour && minute
            < self.target_minute) {
            SummaryCheck::TooEarly
        } else {
            SummaryCheck::Due
        }
    }

    /// Records that there was nothing to summarise on `today`.
    pub fn record_no_entries(&mut self, today: &str)
        ensures
            final(self).state() == after_no_entries(old(self).state(), today@),
    {
        proof {
            use_type_invariant(&*self);
        }
        self.last_summary_date = Some(today.to_string());
    }

    /// Records that today's summary was made.
    pub fn record_success(&mut self, today: &str)
        ensures
            final(self).state() == after_success(old(self).state(), today@),
    {
        proof {
            use_type_invariant(&*self);
        }
        self.last_summary_date = Some(today.to_string());
        self.retry_count = 0;
    }

    /// Records that today's summary failed; tells whether the day is now
    /// given up.
    pub fn record_failure(&mut self, today: &str) -> (gave_up: bool)
        ensures
            final(self).state() == after_failure(old(self).state(), today@),
            gave_up == gives_up(old(self).state()),
    {
        proof {
            use_type_invariant(&*self);
        }
        if self.retry_count + 1 >= MAX_SUMMARY_RETRIES {
            self.last_summary_date = Some(today.to_string());
            self.retry_count = 0;
            true
        } else {
            self.retry_count = self.retry_count + 1;
            false
        }
    }
}

} // verus!
