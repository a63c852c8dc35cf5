use vstd::prelude::*;

use crate::config::ServiceConfig;
use crate::status::Supervisor;

verus! {

/// `a/b`.
pub open spec fn join(a: Seq<char>, b: Seq<char>) -> Seq<char> {
    a + seq!['/'] + b
}

pub open spec fn starts_dot_slash(s: Seq<char>) -> bool {
    s.len() >= 2 && s[0] == '.' && s[1] == '/'
}

pub open spec fn is_absolute(s: Seq<char>) -> bool {
    s.len() >= 1 && s[0] == '/'
}

/// Joins two path pieces with `/`.
pub fn join_path(a: &str, b: &str) -> (r: String)
    ensures
        r@ == join(a@, b@),
{
    proof {
        reveal_strlit("/");
    }
    let mut s = String::from_str(a);
    s.append("/");
    s.append(b);
    s
}

/// Relies on `dirs::home_dir`: the user's home directory as text, when it is
/// known and valid UTF-8. It depends on the environment.
#[verifier::external_body]
fn home_dir() -> (r: Option<String>) {
    dirs::home_dir().and_then(|p| p.to_str().map(|s| s.to_string()))
}

/// The default data directory below a home directory (`.` when unknown).
pub fn app_data_home_for(home: Option<String>) -> (r: String)
    ensures
        r@ == join(
            match home {
                Some(h) => h@,
                None => "."@,
            },
            ".process-compose"@,
        ),
{
    match home {
        Some(h) => join_path(h.as_str(), ".process-compose"),
        None => join_path(".", ".process-compose"),
    }
}

/// The default data directory: `.process-compose` in the user's home
/// (which depends on the environment).
pub fn default_app_data_home() -> (r: String)
    ensures
        exists|home: Seq<char>| r@ == join(home, ".process-compose"@),
{
    app_data_home_for(home_dir())
}

impl Supervisor {
    /// `<app_data_home>/<service>`.
    pub fn get_service_home(&self, service_name: &str) -> (r: String)
        ensures
            r@ == join(self.config.app_data_home@, service_name@),
    {
        join_path(self.config.app_data_home.as_str(), service_name)
    }

    /// `<app_data_home>/<service>/logs`.
    pub fn get_service_log_dir(&self, service_name: &str) -> (r: String)
        ensures
            r@ == join(join(self.config.app_data_home@, service_name@), "logs"@),
    {
        let home = self.get_service_home(service_name);
        join_path(home.as_str(), "logs")
    }

    /// `<app_data_home>/<service>/data`.
    pub fn get_service_data_dir(&self, service_name: &str) -> (r: String)
        ensures
            r@ == join(join(self.config.app_data_home@, service_name@), "data"@),
    {
        let home = self.get_service_home(service_name);
        join_path(home.as_str(), "data")
    }

    /// `<app_data_home>/<service>/pid`, the PID file.
    pub fn get_pid_file(&self, service_name: &str) -> (r: String)
        ensures
            r@ == join(join(self.config.app_data_home@, service_name@), "pid"@),
    {
        let home = self.get_service_home(service_name);
        join_path(home.as_str(), "pid")
    }
}

/// A calendar day.
#[derive(Clone, Copy, Debug, PartialEq, Eq, Structural)]
pub struct Date {
    pub year: u32,
    pub month: u32,
    pub day: u32,
}

pub open spec fn digit_char(n: int) -> char {
    if n == 0 {
        '0'
    } else if n == 1 {
        '1'
    } else if n == 2 {
        '2'
    } else if n == 3 {
        '3'
    } else if n == 4 {
        '4'
    } else if n == 5 {
        '5'
    } else if n == 6 {
        '6'
    } else if n == 7 {
        '7'
    } else if n == 8 {
        '8'
    } else {
        '9'
    }
}

/// `YYYYMMDD`.
pub open spec fn date_stamp(d: Date) -> Seq<char> {
    seq![
        digit_char((d.year / 1000 % 10) as int),
        digit_char((d.year / 100 % 10) as int),
        digit_char((d.year / 10 % 10) as int),
        digit_char((d.year % 10) as int),
        digit_char((d.month / 10 % 10) as int),
        digit_char((d.month % 10) as int),
        digit_char((d.day / 10 % 10) as int),
        digit_char((d.day % 10) as int),
    ]
}

fn digit_text(n: u32) -> (r: &'static str)
    requires
        n < 10,
    ensures
        r@ == seq![digit_char(n as int)],
{
    proof {
        reveal_strlit("0");
        reveal_strlit("1");
        reveal_strlit("2");
        reveal_strlit("3");
        reveal_strlit("4");
        reveal_strlit("5");
        reveal_strlit("6");
        reveal_strlit("7");
        reveal_strlit("8");
        reveal_strlit("9");
    }
    if n == 0 {
        "0"
    } else if n == 1 {
        "1"
    } else if n == 2 {
        "2"
    } else if n == 3 {
        "3"
    } else if n == 4 {
        "4"
    } else if n == 5 {
        "5"
    } else if n == 6 {
        "6"
    } else if n == 7 {
        "7"
    } else if n == 8 {
        "8"
    } else {
        assert(n == 9);
        "9"
    }
}

/// The day as `YYYYMMDD` (year, month and day each taken modulo their width).
pub fn format_date(d: Date) -> (r: String)
    ensures
        r@ == date_stamp(d),
{
    proof {
        reveal_strlit("");
    }
    let mut s = String::from_str("");
    s.append(digit_text(d.year / 1000 % 10));
    s.append(digit_text(d.year / 100 % 10));
    s.append(digit_text(d.year / 10 % 10));
    s.append(digit_text(d.year % 10));
    s.append(digit_text(d.month / 10 % 10));
    s.append(digit_text(d.month % 10));
    s.append(digit_text(d.day / 10 % 10));
    s.append(digit_text(d.day % 10));
    assert(s@ =~= date_stamp(d));
    s
}

/// `<log_dir>/<prefix>_YYYYMMDD.log`: the file a service's output goes to.
pub fn redirect_log_file_path(log_dir: &str, file_prefix: &str, today: Date) -> (r: String)
    ensures
        r@ == join(log_dir@, file_prefix@ + "_"@ + date_stamp(today) + ".log"@),
{
    let stamp = format_date(today);
    let mut name = String::from_str(file_prefix);
    name.append("_");
    name.append(stamp.as_str());
    name.append(".log");
    join_path(log_dir, name.as_str())
}

/// How to spawn a service's child.
#[derive(Debug)]
pub struct SpawnPlan {
    /// The program: relative to the service directory when the command
    /// starts with `./`, else as configured (found through PATH).
    pub program: String,
    pub args: Vec<String>,
    /// The working directory: the service directory iff the program is an
    /// absolute path.
    pub current_dir: Option<String>,
    /// True: stdout and stderr both go to the `out` log; false: stdout is
    /// discarded and stderr goes to the `err` log.
    pub log_redirect: bool,
}

/// The program a command names, with `<root_dir>/<service>` as the service
/// directory.
pub open spec fn resolved_program(cmd: Seq<char>, service_dir: Seq<char>) -> Seq<char> {
    if starts_dot_slash(cmd) {
        join(service_dir, cmd.subrange(2, cmd.len() as int))
    } else {
        cmd
    }
}

/// Plans the spawn of `config`'s child. No plan for an empty command.
pub fn spawn_plan(root_dir: &str, config: &ServiceConfig) -> (r: Option<SpawnPlan>)
    ensures
        config.start_cmd@.len() == 0 <==> r is None,
        r matches Some(p) ==> {
            let dir = join(root_dir@, config.name@);
            &&& p.program@ == resolved_program(config.start_cmd@[0]@, dir)
            &&& p.args@ == config.start_cmd@.drop_first()
            &&& (p.current_dir is Some <==> is_absolute(p.program@))
            &&& (p.current_dir matches Some(d) ==> d@ == dir)
            &&& p.log_redirect == config.log_redirect
        },
{
    if config.start_cmd.len() == 0 {
        return None;
    }
    let dir = join_path(root_dir, config.name.as_str());
    let cmd = config.start_cmd[0].as_str();
    let n = cmd.unicode_len();
    let program = if n >= 2 && cmd.get_char(0) == '.' && cmd.get_char(1) == '/' {
        join_path(dir.as_str(), cmd.substring_char(2, n))
    } else {
        config.start_cmd[0].clone()
    };
    let mut args: Vec<String> = Vec::new();
    let mut k: usize = 1;
    while k < config.start_cmd.len()
        invariant
            1 <= k <= config.start_cmd.len(),
            args@ == config.start_cmd@.subrange(1, k as int),
        decreases config.start_cmd.len() - k,
    {
        args.push(config.start_cmd[k].clone());
        k = k + 1;
        assert(args@ == config.start_cmd@.subrange(1, k as int));
    }
    assert(config.start_cmd@.subrange(1, config.start_cmd.len() as int) =~= config.start_cmd@.drop_first());
    let absolute = program.as_str().unicode_len() >= 1 && program.as_str().get_char(0) == '/';
    let current_dir = if absolute {
        Some(dir)
    } else {
        None
    };
    Some(SpawnPlan { program, args, current_dir, log_redirect: config.log_redirect })
}

/// Command-line arguments.
#[derive(Debug)]
pub struct Args {
    /// One of install, uninstall, start, stop.
    pub service_action: Option<String>,
    /// Run under the operating system's service manager.
    pub run_as_service: bool,
}

pub fn is_run_as_service(args: &Args) -> (r: bool)
    ensures
        r == args.run_as_service,
{
    args.run_as_service
}

/// Actions on the supervisor's own operating-system service.
#[derive(Clone, Copy, Debug, PartialEq, Eq, Structural)]
pub enum ServiceAction {
    Install,
    Uninstall,
    Start,
    Stop,
}

/// Reads a service action; other text names none.
pub fn parse_service_action(s: &str) -> (r: Option<ServiceAction>)
    ensures
        r == (if s@ == "install"@ {
            Some(ServiceAction::Install)
        } else if s@ == "uninstall"@ {
            Some(ServiceAction::Uninstall)
        } else if s@ == "start"@ {
            Some(ServiceAction::Start)
        } else if s@ == "stop"@ {
            Some(ServiceAction::Stop)
        } else {
            None
        }),
{
    let t = String::from_str(s);
    if t == String::from_str("install") {
        Some(ServiceAction::Install)
    } else if t == String::from_str("uninstall") {
        Some(ServiceAction::Uninstall)
    } else if t == String::from_str("start") {
        Some(ServiceAction::Start)
    } else if t == String::from_str("stop") {
        Some(ServiceAction::Stop)
    } else {
        None
    }
}

/// What the program does for its arguments.
#[derive(Clone, Copy, Debug, PartialEq, Eq, Structural)]
pub enum RunMode {
    /// Act on the supervisor's own service (nothing for an unknown action).
    Control { action: Option<ServiceAction> },
    /// Run under the operating system's service manager.
    AsService,
    /// Run in the foreground until a termination signal.
    Foreground,
}

/// A service action wins; else `--run-as-service`; else the foreground.
pub fn run_mode(args: &Args) -> (r: RunMode)
    ensures
        match args.service_action {
            Some(a) => r == (RunMode::Control {
                action: if a@ == "install"@ {
                    Some(ServiceAction::Install)
                } else if a@ == "uninstall"@ {
                    Some(ServiceAction::Uninstall)
                } else if a@ == "start"@ {
                    Some(ServiceAction::Start)
                } else if a@ == "stop"@ {
                    Some(ServiceAction::Stop)
                } else {
                    None
                },
            }),
            None => r == if args.run_as_service {
                RunMode::AsService
            } else {
                RunMode::Foreground
            },
        },
{
    match &args.service_action {
        Some(a) => RunMode::Control { action: parse_service_action(a.as_str()) },
        None => if is_run_as_service(args) {
            RunMode::AsService
        } else {
            RunMode::Foreground
        },
    }
}

} // verus!
