use vstd::prelude::*;

verus! {

/// Asks the operating system whether a process with this PID exists right now.
/// Relies on sysinfo's `System::refresh_processes` and `System::process`: the
/// answer depends on the machine's process table at the moment of the call, so
/// nothing is promised about it.
#[verifier::external_body]
pub fn is_running_by_pid(pid: u32) -> (alive: bool) {
    let mut s = sysinfo::System::new();
    s.refresh_processes();
    s.process(sysinfo::Pid::from(pid as usize)).is_some()
}

/// The signals the supervisor sends.
#[derive(Clone, Copy, Debug, PartialEq, Eq, Structural)]
pub enum Signal {
    /// Graceful termination (SIGTERM).
    Term,
    /// Forced termination (SIGKILL).
    Kill,
}

/// Errors of signalling a process.
#[derive(Debug, PartialEq, Eq)]
pub enum PlatformError {
    /// The PID does not fit a signed 32-bit process id.
    PidOutOfRange,
    /// The operating system refused, with this errno.
    Os { errno: i32 },
}

/// Relies on `nix::unistd::getpgid`: the process group of `pid`, or the
/// errno of the failure; it depends on the process table.
#[verifier::external_body]
fn process_group_of(pid: i32) -> (r: Result<i32, i32>) {
    match nix::unistd::getpgid(Some(nix::unistd::Pid::from_raw(pid))) {
        Ok(g) => Ok(g.as_raw()),
        Err(e) => Err(e as i32),
    }
}

/// Relies on `nix::sys::signal::kill`: sends `signal` to `target` (a negative
/// target names a process group), or gives the errno of the failure.
#[verifier::external_body]
fn send_signal(target: i32, signal: Signal) -> (r: Result<(), i32>) {
    let s = match signal {
        Signal::Term => nix::sys::signal::Signal::SIGTERM,
        Signal::Kill => nix::sys::signal::Signal::SIGKILL,
    };
    nix::sys::signal::kill(nix::unistd::Pid::from_raw(target), s).map_err(|e| e as i32)
}

/// Where a signal for `pid` goes: the whole group when `pid` leads its
/// process group (`-pid`), else the process alone.
pub fn signal_target(pid: i32, pgid: i32) -> (r: i32)
    requires
        pid >= 0,
    ensures
        r == (if pgid == pid {
            -pid
        } else {
            pid as int
        }),
{
    if pgid == pid {
        -pid
    } else {
        pid
    }
}

/// The PID as a signed process id, if it fits.
pub fn raw_pid(pid: u32) -> (r: Result<i32, PlatformError>)
    ensures
        pid <= i32::MAX ==> r == Ok::<i32, PlatformError>(pid as i32),
        pid > i32::MAX ==> r == Err::<i32, PlatformError>(PlatformError::PidOutOfRange),
{
    if pid <= i32::MAX as u32 {
        Ok(pid as i32)
    } else {
        Err(PlatformError::PidOutOfRange)
    }
}

/// Sends `signal` to `pid`, or to its whole group when it leads one.
fn signal_proc(pid: i32, signal: Signal) -> (r: Result<(), PlatformError>)
    requires
        pid >= 0,
    ensures
        r matches Err(e) ==> e is Os,
{
    let pgid = match process_group_of(pid) {
        Ok(g) => g,
        Err(errno) => {
            return Err(PlatformError::Os { errno });
        },
    };
    match send_signal(signal_target(pid, pgid), signal) {
        Ok(()) => Ok(()),
        Err(errno) => Err(PlatformError::Os { errno }),
    }
}

/// Graceful termination: SIGTERM to the process (its group when it leads one).
pub fn terminate_process(pid: u32) -> (r: Result<(), PlatformError>)
    ensures
        pid > i32::MAX ==> r == Err::<(), PlatformError>(PlatformError::PidOutOfRange),
        pid <= i32::MAX ==> (r matches Err(e) ==> e is Os),
{
    let raw = raw_pid(pid)?;
    signal_proc(raw, Signal::Term)
}

/// Forced termination: SIGKILL to the process (its group when it leads one).
pub fn kill_process(pid: u32) -> (r: Result<(), PlatformError>)
    ensures
        pid > i32::MAX ==> r == Err::<(), PlatformError>(PlatformError::PidOutOfRange),
        pid <= i32::MAX ==> (r matches Err(e) ==> e is Os),
{
    let raw = raw_pid(pid)?;
    signal_proc(raw, Signal::Kill)
}

/// What to do while waiting for a terminated process to exit.
#[derive(Clone, Copy, Debug, PartialEq, Eq, Structural)]
pub enum StopWait {
    /// The process is gone.
    Done,
    /// Sleep this many milliseconds, then check again.
    Poll { millis: u64 },
    /// The grace period is over: kill it.
    Kill,
}

/// Poll step of a stop: after a terminate request, check liveness every
/// 200 ms for up to 2 s, then kill.
pub fn stop_wait_step(alive: bool, elapsed_millis: u64) -> (r: StopWait)
    ensures
        !alive ==> r == StopWait::Done,
        alive && elapsed_millis <= 2000 ==> r == (StopWait::Poll { millis: 200 }),
        alive && elapsed_millis > 2000 ==> r == StopWait::Kill,
{
    if !alive {
        StopWait::Done
    } else if elapsed_millis <= 2000 {
        StopWait::Poll { millis: 200 }
    } else {
        StopWait::Kill
    }
}

} // verus!
