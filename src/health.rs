use vstd::prelude::*;

use crate::config::{HealthCheckConfig, HealthCheckType};
use crate::event::EventType;
use crate::pid_file::{is_white, white};
use crate::status::Supervisor;

verus! {

/// The words of `s`: its maximal runs of non-whitespace characters, in
/// order, as `str::split_whitespace` gives them.
pub open spec fn whitespace_words(s: Seq<char>) -> Seq<Seq<char>>
    decreases s.len(),
{
    if s.len() == 0 {
        Seq::empty()
    } else {
        let w = whitespace_words(s.drop_last());
        let c = s.last();
        if is_white(c) {
            w
        } else if s.len() >= 2 && !is_white(s[s.len() - 2]) {
            w.update(w.len() - 1, w.last().push(c))
        } else {
            w.push(seq![c])
        }
    }
}

/// The words of `s`.
pub fn split_words(s: &str) -> (r: Vec<String>)
    ensures
        r@.len() == whitespace_words(s@).len(),
        forall|k: int| 0 <= k < r@.len() ==> (#[trigger] r@[k])@ == whitespace_words(s@)[k],
{
    let n = s.unicode_len();
    let mut out: Vec<String> = Vec::new();
    let mut start: usize = 0;
    let mut in_word = false;
    let mut i: usize = 0;
    assert(s@.subrange(0, 0) =~= Seq::<char>::empty());
    while i < n
        invariant
            i <= n,
            n == s@.len(),
            start <= i,
            in_word <==> (i > 0 && !is_white(s@[i - 1])),
            in_word ==> start < i && forall|q: int| start <= q < i ==> !is_white(#[trigger] s@[q]),
            in_word ==> (start == 0 || is_white(s@[start - 1])),
            whitespace_words(s@.subrange(0, i as int)) == crate::config::names_of(out@) + if in_word {
                seq![s@.subrange(start as int, i as int)]
            } else {
                Seq::empty()
            },
        decreases n - i,
    {
        let c = s.get_char(i);
        let ghost pre = s@.subrange(0, i as int);
        let ghost cur = s@.subrange(0, i + 1);
        assert(cur.drop_last() =~= pre);
        assert(cur.last() == c);
        let ghost views = crate::config::names_of(out@);
        if white(c) {
            if in_word {
                let w = String::from_str(s.substring_char(start, i));
                out.push(w);
                assert(crate::config::names_of(out@) =~= views.push(s@.subrange(start as int, i as int)));
            }
            in_word = false;
            assert(whitespace_words(cur) =~= crate::config::names_of(out@));
        } else {
            if in_word {
                assert(i >= 1 && !is_white(s@[i - 1]));
                assert(cur[cur.len() - 2] == s@[i - 1]);
                assert(s@.subrange(start as int, i + 1) =~= s@.subrange(start as int, i as int).push(c));
                assert(whitespace_words(cur) =~= views + seq![s@.subrange(start as int, i + 1)]);
            } else {
                if i >= 1 {
                    assert(cur[cur.len() - 2] == s@[i - 1]);
                }
                start = i;
                assert(s@.subrange(start as int, i + 1) =~= seq![c]);
                assert(whitespace_words(cur) =~= views + seq![s@.subrange(start as int, i + 1)]);
            }
            in_word = true;
        }
        i = i + 1;
    }
    assert(s@.subrange(0, n as int) =~= s@);
    if in_word {
        let ghost views = crate::config::names_of(out@);
        let w = String::from_str(s.substring_char(start, n));
        out.push(w);
        assert(crate::config::names_of(out@) =~= views.push(s@.subrange(start as int, n as int)));
    }
    assert(crate::config::names_of(out@) == whitespace_words(s@));
    assert forall|k: int| 0 <= k < out@.len() implies (#[trigger] out@[k])@ == whitespace_words(s@)[k] by {
        assert(crate::config::names_of(out@)[k] == out@[k]@);
    }
    out
}

impl HealthCheckType {
    /// Reads a probe kind: "http", "tcp" and "cmd" name theirs; any other
    /// text means the process-liveness probe.
    pub fn from_str(s: &str) -> (r: HealthCheckType)
        ensures
            r == (if s@ == "http"@ {
                HealthCheckType::Http
            } else if s@ == "tcp"@ {
                HealthCheckType::Tcp
            } else if s@ == "cmd"@ {
                HealthCheckType::Cmd
            } else {
                HealthCheckType::Proccess
            }),
    {
        let t = String::from_str(s);
        if t == String::from_str("http") {
            HealthCheckType::Http
        } else if t == String::from_str("tcp") {
            HealthCheckType::Tcp
        } else if t == String::from_str("cmd") {
            HealthCheckType::Cmd
        } else {
            HealthCheckType::Proccess
        }
    }
}

/// Outcome of one probe.
#[derive(Clone, Copy, Debug, PartialEq, Eq, Structural)]
pub enum ProbeResult {
    /// The probe ran and the service is healthy.
    Success,
    /// The probe ran and the service is unhealthy.
    Failure,
    /// The probe could not run (a transient error); it does not count.
    Error,
}

/// The probe a health check runs.
#[derive(Debug)]
pub enum Probe {
    Http { url: String },
    Tcp { address: String },
    Cmd { program: String, args: Vec<String> },
    Process,
}

/// Why a probe cannot run.
#[derive(Debug, PartialEq, Eq)]
pub enum ProbeError {
    /// A command probe with no command.
    EmptyCommand,
}

/// What a watcher does after one probe.
#[derive(Clone, Copy, Debug, PartialEq, Eq, Structural)]
pub struct WatchStep {
    /// The event to emit, if any.
    pub event: Option<EventType>,
    /// Whether to restart the service.
    pub restart: bool,
    /// Seconds to sleep before the next probe.
    pub sleep_secs: u64,
}

/// The probe interval, never below five seconds.
pub open spec fn clamped_interval(interval: i32) -> int {
    if interval < 5 {
        5
    } else {
        interval as int
    }
}

/// The start period as a number of seconds (absent or negative: none).
pub open spec fn grace_secs(start_period: Option<i32>) -> int {
    match start_period {
        Some(p) => if p > 0 {
            p as int
        } else {
            0
        },
        None => 0,
    }
}

/// Failure count after one more failure (it stops growing at `i32::MAX`).
pub open spec fn one_more(n: i32) -> i32 {
    if n < i32::MAX {
        (n + 1) as i32
    } else {
        n
    }
}

/// Seconds between probes: the configured interval, at least five.
pub fn check_interval(interval: i32) -> (r: u64)
    ensures
        r == clamped_interval(interval),
{
    if interval < 5 {
        5
    } else {
        interval as u64
    }
}

/// Seconds to wait before the first probe.
pub fn start_delay(start_period: Option<i32>) -> (r: u64)
    ensures
        r == grace_secs(start_period),
{
    match start_period {
        Some(p) => if p > 0 {
            p as u64
        } else {
            0
        },
        None => 0,
    }
}

/// One step of a health watcher, after a probe gave `result`. A probe error
/// emits nothing and leaves the failure count. A failure emits Unhealthy and
/// counts; once the count exceeds `max_failures` it asks for a restart and
/// adds the start period to the sleep. A success emits Healthy and resets the
/// count.
pub fn next_watch_step(failures: &mut i32, result: ProbeResult, config: &HealthCheckConfig) -> (r:
    WatchStep)
    ensures
        match result {
            ProbeResult::Error => {
                &&& *final(failures) == *old(failures)
                &&& r.event is None
                &&& !r.restart
                &&& r.sleep_secs == clamped_interval(config.interval)
            },
            ProbeResult::Failure => {
                &&& *final(failures) == one_more(*old(failures))
                &&& r.event == Some(EventType::Unhealthy)
                &&& r.restart == (one_more(*old(failures)) > config.max_failures)
                &&& r.sleep_secs == clamped_interval(config.interval) + if r.restart {
                    grace_secs(config.start_period)
                } else {
                    0
                }
            },
            ProbeResult::Success => {
                &&& *final(failures) == 0
                &&& r.event == Some(EventType::Healthy)
                &&& !r.restart
                &&& r.sleep_secs == clamped_interval(config.interval)
            },
        },
{
    let interval = check_interval(config.interval);
    match result {
        ProbeResult::Error => WatchStep { event: None, restart: false, sleep_secs: interval },
        ProbeResult::Failure => {
            if *failures < i32::MAX {
                *failures = *failures + 1;
            }
            let restart = *failures > config.max_failures;
            let sleep_secs = if restart {
                interval + start_delay(config.start_period)
            } else {
                interval
            };
            WatchStep { event: Some(EventType::Unhealthy), restart, sleep_secs }
        },
        ProbeResult::Success => {
            *failures = 0;
            WatchStep { event: Some(EventType::Healthy), restart: false, sleep_secs: interval }
        },
    }
}

/// The command probe for the words of a command line: the first word is the
/// program, the rest its arguments. No words is an error.
pub fn command_probe(words: Vec<String>) -> (r: Result<Probe, ProbeError>)
    ensures
        words@.len() == 0 ==> r == Err::<Probe, ProbeError>(ProbeError::EmptyCommand),
        words@.len() > 0 ==> (r matches Ok(Probe::Cmd { program, args }) && program == words@[0]
            && args@ == words@.drop_first()),
{
    if words.len() == 0 {
        return Err(ProbeError::EmptyCommand);
    }
    let mut args: Vec<String> = Vec::new();
    let mut k: usize = 1;
    while k < words.len()
        invariant
            1 <= k <= words.len(),
            args@ == words@.subrange(1, k as int),
        decreases words.len() - k,
    {
        args.push(words[k].clone());
        k = k + 1;
        assert(args@ == words@.subrange(1, k as int));
    }
    assert(words@.subrange(1, words.len() as int) =~= words@.drop_first());
    Ok(Probe::Cmd { program: words[0].clone(), args })
}

/// The probe a health check configuration asks for: HTTP GET of the target,
/// TCP connect to the target, the target as a command line, or the process
/// liveness probe.
pub fn check(config: &HealthCheckConfig) -> (r: Result<Probe, ProbeError>)
    ensures
        config.test_type == HealthCheckType::Http ==> (r matches Ok(Probe::Http { url })
            && url@ == config.test_target@),
        config.test_type == HealthCheckType::Tcp ==> (r matches Ok(Probe::Tcp { address })
            && address@ == config.test_target@),
        config.test_type == HealthCheckType::Cmd ==> (whitespace_words(config.test_target@).len()
            == 0 <==> r == Err::<Probe, ProbeError>(ProbeError::EmptyCommand)),
        config.test_type == HealthCheckType::Cmd && whitespace_words(config.test_target@).len() > 0
            ==> (r matches Ok(Probe::Cmd { program, args }) && program@ == whitespace_words(
            config.test_target@,
        )[0] && args@.len() + 1 == whitespace_words(config.test_target@).len()),
        config.test_type == HealthCheckType::Cmd && whitespace_words(config.test_target@).len() > 0
            ==> (r matches Ok(Probe::Cmd { args, .. }) && forall|k: int|
            0 <= k < args@.len() ==> (#[trigger] args@[k])@ == whitespace_words(
                config.test_target@,
            )[k + 1]),
        config.test_type == HealthCheckType::Cmd && config.test_target@.len() == 0 ==> r == Err::<
            Probe,
            ProbeError,
        >(ProbeError::EmptyCommand),
        config.test_type == HealthCheckType::Proccess ==> (r matches Ok(Probe::Process)),
{
    match config.test_type {
        HealthCheckType::Http => Ok(Probe::Http { url: config.test_target.clone() }),
        HealthCheckType::Tcp => Ok(Probe::Tcp { address: config.test_target.clone() }),
        HealthCheckType::Cmd => {
            let words = split_words(config.test_target.as_str());
            let ghost w = words@;
            let r = command_probe(words);
            proof {
                if w.len() > 0 {
                    assert forall|k: int| 0 <= k < w.len() - 1 implies (#[trigger] w.drop_first()[k])@
                        == whitespace_words(config.test_target@)[k + 1] by {
                        assert(w.drop_first()[k] == w[k + 1]);
                    }
                }
            }
            r
        },
        HealthCheckType::Proccess => Ok(Probe::Process),
    }
}

/// What an HTTP GET of a probe target gave.
#[derive(Clone, Copy, Debug, PartialEq, Eq, Structural)]
pub enum HttpAnswer {
    /// The server answered with this status code.
    Status { code: u16 },
    /// No answer: the connection was refused, failed or timed out.
    NoResponse,
    /// The request could not be built (for instance, the URL is invalid).
    BadRequest,
}

/// The outcome of an HTTP probe: healthy iff the status is 2xx; no answer
/// at all (a refused connection) counts as a failure; a request that cannot
/// be built is a probe error.
pub fn http_result(answer: HttpAnswer) -> (r: ProbeResult)
    ensures
        match answer {
            HttpAnswer::Status { code } => r == if 200 <= code && code <= 299 {
                ProbeResult::Success
            } else {
                ProbeResult::Failure
            },
            HttpAnswer::NoResponse => r == ProbeResult::Failure,
            HttpAnswer::BadRequest => r == ProbeResult::Error,
        },
{
    match answer {
        HttpAnswer::Status { code } => if 200 <= code && code <= 299 {
            ProbeResult::Success
        } else {
            ProbeResult::Failure
        },
        HttpAnswer::NoResponse => ProbeResult::Failure,
        HttpAnswer::BadRequest => ProbeResult::Error,
    }
}

/// The outcome of a TCP probe: an address that does not resolve is a probe
/// error; otherwise healthy iff the connection was established.
pub fn tcp_result(resolved: bool, connected: bool) -> (r: ProbeResult)
    ensures
        !resolved ==> r == ProbeResult::Error,
        resolved ==> r == if connected {
            ProbeResult::Success
        } else {
            ProbeResult::Failure
        },
{
    if !resolved {
        ProbeResult::Error
    } else if connected {
        ProbeResult::Success
    } else {
        ProbeResult::Failure
    }
}

/// The outcome of a command probe: a command that could not be run is a
/// probe error; otherwise healthy iff it exited with status 0.
pub fn command_result(exit_success: Option<bool>) -> (r: ProbeResult)
    ensures
        exit_success is None ==> r == ProbeResult::Error,
        exit_success == Some(true) ==> r == ProbeResult::Success,
        exit_success == Some(false) ==> r == ProbeResult::Failure,
{
    match exit_success {
        None => ProbeResult::Error,
        Some(true) => ProbeResult::Success,
        Some(false) => ProbeResult::Failure,
    }
}

impl Supervisor {
    /// The process-liveness probe: true iff service `name` has a recorded
    /// PID that the operating system reports alive.
    pub fn test_with_process(&self, name: &str) -> (r: bool)
        ensures
            r ==> (crate::status::process_index(self.processes@, name@, 0) matches Some(i)
                && self.processes@[i].pid is Some),
    {
        self.is_running_by_name(name)
    }
}

} // verus!
