use crate::application::ServerApp;
use crate::error::StackError;
use vstd::prelude::*;

verus! {

/// The level of output for logging.
#[derive(Clone, Copy, Debug, PartialEq, Eq, Structural)]
pub enum LogLevel {
    /// No output at all.
    Silent,
    /// Server startup and shutdown information, but nothing about individual packets.
    ServerInfo,
    /// Minimal indicators for each packet with no details.
    PktQuiet,
    /// Packet header details but only payload lengths and whether they are UTF-8.
    PktDetails,
    /// Packet header details and payload content.
    PktFull,
}

/// The number of a log level, from 0 (silent) to 4 (full).
pub open spec fn level_number(l: LogLevel) -> u8 {
    match l {
        LogLevel::Silent => 0,
        LogLevel::ServerInfo => 1,
        LogLevel::PktQuiet => 2,
        LogLevel::PktDetails => 3,
        LogLevel::PktFull => 4,
    }
}

/// Whether `c` is white space (the Unicode `White_Space` property, as `char::is_whitespace`).
pub open spec fn is_white(c: char) -> bool {
    let u = c as u32;
    (0x09 <= u <= 0x0D) || u == 0x20 || u == 0x85 || u == 0xA0 || u == 0x1680 || (0x2000 <= u
        <= 0x200A) || u == 0x2028 || u == 0x2029 || u == 0x202F || u == 0x205F || u == 0x3000
}

/// `cs` without leading white space.
pub open spec fn trim_start(cs: Seq<char>) -> Seq<char>
    decreases cs.len(),
{
    if cs.len() > 0 && is_white(cs[0]) {
        trim_start(cs.drop_first())
    } else {
        cs
    }
}

/// `cs` without trailing white space.
pub open spec fn trim_end(cs: Seq<char>) -> Seq<char>
    decreases cs.len(),
{
    if cs.len() > 0 && is_white(cs.last()) {
        trim_end(cs.drop_last())
    } else {
        cs
    }
}

/// `cs` without leading or trailing white space (as `str::trim`).
pub open spec fn trim(cs: Seq<char>) -> Seq<char> {
    trim_end(trim_start(cs))
}

/// The log level written as `s`: one digit from 0 to 4, with any surrounding white space.
pub open spec fn log_level_of(s: Seq<char>) -> Option<LogLevel> {
    let t = trim(s);
    if t.len() != 1 {
        None
    } else if t[0] == '0' {
        Some(LogLevel::Silent)
    } else if t[0] == '1' {
        Some(LogLevel::ServerInfo)
    } else if t[0] == '2' {
        Some(LogLevel::PktQuiet)
    } else if t[0] == '3' {
        Some(LogLevel::PktDetails)
    } else if t[0] == '4' {
        Some(LogLevel::PktFull)
    } else {
        None
    }
}

/// Whether `c` is a decimal digit.
pub open spec fn is_digit(c: char) -> bool {
    '0' <= c <= '9'
}

/// The value of the decimal digits `cs`.
pub open spec fn digits_value(cs: Seq<char>) -> nat
    decreases cs.len(),
{
    if cs.len() == 0 {
        0
    } else {
        digits_value(cs.drop_last()) * 10 + ((cs.last() as u32) - ('0' as u32)) as nat
    }
}

/// `cs` without a leading `+`, if it has one.
pub open spec fn sign_stripped(cs: Seq<char>) -> Seq<char> {
    if cs.len() > 0 && cs[0] == '+' {
        cs.drop_first()
    } else {
        cs
    }
}

/// The unsigned integer up to `max` written as `cs`, as the standard library parses it: an
/// optional `+`, then one or more decimal digits and nothing else.
pub open spec fn unsigned_of(cs: Seq<char>, max: nat) -> Option<nat> {
    let body = sign_stripped(cs);
    if body.len() == 0 || !(forall|i: int| 0 <= i < body.len() ==> is_digit(#[trigger] body[i]))
        || digits_value(body) > max {
        None
    } else {
        Some(digits_value(body))
    }
}

proof fn lemma_trim_start_skip(cs: Seq<char>, i: int)
    requires
        0 <= i < cs.len(),
        is_white(cs[i]),
    ensures
        trim_start(cs.subrange(i, cs.len() as int)) == trim_start(cs.subrange(i + 1, cs.len() as int)),
{
    assert(cs.subrange(i, cs.len() as int).drop_first() =~= cs.subrange(i + 1, cs.len() as int));
}

proof fn lemma_trim_end_skip(cs: Seq<char>, j: int)
    requires
        0 < j <= cs.len(),
        is_white(cs[j - 1]),
    ensures
        trim_end(cs.subrange(0, j)) == trim_end(cs.subrange(0, j - 1)),
{
    assert(cs.subrange(0, j).drop_last() =~= cs.subrange(0, j - 1));
}

/// Whether `c` is white space (see `is_white`).
pub fn char_is_white(c: char) -> (r: bool)
    ensures
        r == is_white(c),
{
    let u = c as u32;
    (0x09 <= u && u <= 0x0D) || u == 0x20 || u == 0x85 || u == 0xA0 || u == 0x1680 || (0x2000 <= u
        && u <= 0x200A) || u == 0x2028 || u == 0x2029 || u == 0x202F || u == 0x205F || u == 0x3000
}

/// The characters of `cs` from `start` up to `end`, as a new vector.
fn chars_range(cs: &[char], start: usize, end: usize) -> (r: Vec<char>)
    requires
        start <= end <= cs@.len(),
    ensures
        r@ == cs@.subrange(start as int, end as int),
{
    let mut r: Vec<char> = Vec::new();
    let mut i = start;
    while i < end
        invariant
            start <= i <= end,
            end <= cs@.len(),
            r@ =~= cs@.subrange(start as int, i as int),
        decreases end - i,
    {
        r.push(cs[i]);
        i = i + 1;
    }
    r
}

/// `cs` without leading or trailing white space (see `trim`).
pub fn trimmed(cs: &[char]) -> (r: Vec<char>)
    ensures
        r@ == trim(cs@),
{
    let mut i: usize = 0;
    assert(cs@.subrange(0, cs@.len() as int) =~= cs@);
    while i < cs.len() && char_is_white(cs[i])
        invariant
            i <= cs@.len(),
            trim_start(cs@) == trim_start(cs@.subrange(i as int, cs@.len() as int)),
        decreases cs@.len() - i,
    {
        proof {
            lemma_trim_start_skip(cs@, i as int);
        }
        i = i + 1;
    }
    let ghost rest = cs@.subrange(i as int, cs@.len() as int);
    assert(trim_start(cs@) == rest) by {
        assert(cs@.subrange(i as int, cs@.len() as int) =~= rest);
    }
    let mut j: usize = cs.len();
    assert(rest.subrange(0, j - i) =~= rest);
    while j > i && char_is_white(cs[j - 1])
        invariant
            i <= j <= cs@.len(),
            rest == cs@.subrange(i as int, cs@.len() as int),
            trim_end(rest) == trim_end(rest.subrange(0, j - i)),
        decreases j,
    {
        proof {
            lemma_trim_end_skip(rest, (j - i) as int);
        }
        j = j - 1;
    }
    let out = chars_range(cs, i, j);
    assert(out@ =~= rest.subrange(0, j - i));
    out
}

/// The configuration variables read at startup.
#[derive(Clone, Copy, Debug, PartialEq, Eq, Structural)]
pub enum ConfigVar {
    TunName,
    WorkerCount,
    App,
    InitRtoMillis,
    MaxRetransmits,
    GraceSecs,
    LogLevel,
}

impl LogLevel {
    /// The number of this level, from 0 (silent) to 4 (full).
    pub fn number(self) -> (r: u8)
        ensures
            r == level_number(self),
    {
        match self {
            LogLevel::Silent => 0,
            LogLevel::ServerInfo => 1,
            LogLevel::PktQuiet => 2,
            LogLevel::PktDetails => 3,
            LogLevel::PktFull => 4,
        }
    }

    /// Whether output meant for level `needed` is shown at this level.
    pub fn allows(self, needed: LogLevel) -> (r: bool)
        ensures
            r == (level_number(self) >= level_number(needed)),
    {
        self.number() >= needed.number()
    }

    /// Parses a log level: one digit from 0 to 4, with any surrounding white space.
    pub fn parse(s: &str) -> (r: Result<LogLevel, StackError>)
        ensures
            (match log_level_of(s@) {
                Some(l) => r == Ok::<LogLevel, StackError>(l),
                None => r == Err::<LogLevel, _>(StackError::InvalidLogLevel),
            }),
    {
        let cs = crate::protocol::display::chars_of(s);
        let t = trimmed(cs.as_slice());
        if t.len() != 1 {
            return Err(StackError::InvalidLogLevel);
        }
        let c = t[0];
        if c == '0' {
            Ok(LogLevel::Silent)
        } else if c == '1' {
            Ok(LogLevel::ServerInfo)
        } else if c == '2' {
            Ok(LogLevel::PktQuiet)
        } else if c == '3' {
            Ok(LogLevel::PktDetails)
        } else if c == '4' {
            Ok(LogLevel::PktFull)
        } else {
            Err(StackError::InvalidLogLevel)
        }
    }
}

impl Default for LogLevel {
    /// Full output.
    fn default() -> (r: Self)
        ensures
            r == LogLevel::PktFull,
    {
        LogLevel::PktFull
    }
}


proof fn lemma_digits_value_grows(cs: Seq<char>, c: char)
    requires
        is_digit(c),
    ensures
        digits_value(cs.push(c)) >= digits_value(cs),
        digits_value(cs.push(c)) == digits_value(cs) * 10 + ((c as u32) - ('0' as u32)),
{
    assert(cs.push(c).drop_last() =~= cs);
}

/// Parses an unsigned integer up to `max` (see `unsigned_of`).
pub fn parse_unsigned(cs: &[char], max: u64) -> (r: Option<u64>)
    ensures
        (match unsigned_of(cs@, max as nat) {
            Some(v) => r == Some(v as u64),
            None => r is None,
        }),
{
    let start: usize = if cs.len() > 0 && cs[0] == '+' {
        1
    } else {
        0
    };
    let ghost body = sign_stripped(cs@);
    assert(body =~= cs@.subrange(start as int, cs@.len() as int));
    if start == cs.len() {
        return None;
    }
    let mut value: u64 = 0;
    let mut too_big = false;
    let mut i = start;
    while i < cs.len()
        invariant
            start <= i <= cs@.len(),
            body == cs@.subrange(start as int, cs@.len() as int),
            body == sign_stripped(cs@),
            forall|k: int| start <= k < i ==> is_digit(#[trigger] cs@[k]),
            too_big == (digits_value(cs@.subrange(start as int, i as int)) > max),
            !too_big ==> value == digits_value(cs@.subrange(start as int, i as int)),
        decreases cs@.len() - i,
    {
        let c = cs[i];
        if !('0' <= c && c <= '9') {
            assert(unsigned_of(cs@, max as nat) is None) by {
                assert(body[i - start] == cs@[i as int]);
                assert(!is_digit(body[i - start]));
            }
            return None;
        }
        proof {
            assert(cs@.subrange(start as int, i + 1) =~= cs@.subrange(start as int, i as int).push(c));
            lemma_digits_value_grows(cs@.subrange(start as int, i as int), c);
        }
        let d = (c as u32 - '0' as u32) as u64;
        if !too_big {
            if d > max {
                too_big = true;
            } else if value > (max - d) / 10 {
                too_big = true;
                assert(value * 10 + d > max) by (nonlinear_arith)
                    requires
                        value > (max - d) / 10,
                        d <= max,
                ;
            } else {
                assert(value * 10 + d <= max) by (nonlinear_arith)
                    requires
                        value <= (max - d) / 10,
                        d <= max,
                ;
                value = value * 10 + d;
            }
        }
        i = i + 1;
    }
    assert(cs@.subrange(start as int, cs@.len() as int) == body);
    if too_big {
        None
    } else {
        Some(value)
    }
}


/// The values of the configuration variables, each `None` where the variable is not set.
#[derive(Debug, Default)]
pub struct EnvVars {
    pub tun_name: Option<String>,
    pub worker_count: Option<String>,
    pub app: Option<String>,
    pub init_rto_millis: Option<String>,
    pub max_retransmits: Option<String>,
    pub grace_secs: Option<String>,
    pub log_level: Option<String>,
}

/// The server's configuration.
#[derive(Debug)]
pub struct Config {
    /// The name of the TUN device to attach to.
    pub tun_name: String,
    /// The number of worker threads, each attached to its own queue of the same TUN device.
    pub worker_count: usize,
    /// The application logic to use for the server.
    pub app: ServerApp,
    /// How long to wait before retransmitting an unacknowledged TCP segment the first time, in
    /// milliseconds.
    pub initial_rto: u64,
    /// How many times to retransmit an unacknowledged TCP segment before dropping the connection.
    pub max_retries: u8,
    /// How long to wait for closing TCP connections after a shutdown signal, in milliseconds.
    pub grace_period: u128,
    /// The level of output for logging.
    pub log_level: LogLevel,
}

/// Whether an optional variable value is absent or parses with `parses`.
pub open spec fn var_ok(o: Option<String>, parses: spec_fn(Seq<char>) -> bool) -> bool {
    match o {
        None => true,
        Some(s) => parses(s@),
    }
}

/// The first configuration variable whose value does not parse, in the order of the fields of
/// `Config`, if any: a worker count must be a positive integer, an application `echo` or `shout`,
/// the initial timeout and grace period unsigned 64-bit integers, the retransmission count an
/// unsigned 8-bit integer, and the log level a digit from 0 to 4.
pub open spec fn config_error(vars: EnvVars) -> Option<ConfigVar> {
    if !var_ok(vars.worker_count, |s: Seq<char>| unsigned_of(s, usize::MAX as nat) matches Some(n) && n >= 1) {
        Some(ConfigVar::WorkerCount)
    } else if !var_ok(vars.app, |s: Seq<char>| crate::application::app_of(s) is Some) {
        Some(ConfigVar::App)
    } else if !var_ok(vars.init_rto_millis, |s: Seq<char>| unsigned_of(s, u64::MAX as nat) is Some) {
        Some(ConfigVar::InitRtoMillis)
    } else if !var_ok(vars.max_retransmits, |s: Seq<char>| unsigned_of(s, 255) is Some) {
        Some(ConfigVar::MaxRetransmits)
    } else if !var_ok(vars.grace_secs, |s: Seq<char>| unsigned_of(s, u64::MAX as nat) is Some) {
        Some(ConfigVar::GraceSecs)
    } else if !var_ok(vars.log_level, |s: Seq<char>| log_level_of(s) is Some) {
        Some(ConfigVar::LogLevel)
    } else {
        None
    }
}

/// Whether `c` is the configuration the variables `vars` give where they all parse. Unset
/// variables take their defaults: device `tun0`, `available_parallelism` workers, the echo
/// application, an initial timeout of 250 ms in debug builds and 1 s otherwise, 15
/// retransmissions, a grace period of 5 s in debug builds and 60 s otherwise, and full logging.
pub open spec fn config_from(vars: EnvVars, debug_build: bool, available_parallelism: usize, c: Config) -> bool {
    &&& c.tun_name@ == (match vars.tun_name {
        None => seq!['t', 'u', 'n', '0'],
        Some(s) => s@,
    })
    &&& c.worker_count == (match vars.worker_count {
        None => available_parallelism as nat,
        Some(s) => unsigned_of(s@, usize::MAX as nat)->0,
    })
    &&& c.app == (match vars.app {
        None => ServerApp::Echo,
        Some(s) => crate::application::app_of(s@)->0,
    })
    &&& c.initial_rto == (match vars.init_rto_millis {
        None => if debug_build { 250nat } else { 1000nat },
        Some(s) => unsigned_of(s@, u64::MAX as nat)->0,
    })
    &&& c.max_retries == (match vars.max_retransmits {
        None => 15nat,
        Some(s) => unsigned_of(s@, 255)->0,
    })
    &&& c.grace_period == 1000 * (match vars.grace_secs {
        None => if debug_build { 5nat } else { 60nat },
        Some(s) => unsigned_of(s@, u64::MAX as nat)->0,
    })
    &&& c.log_level == (match vars.log_level {
        None => LogLevel::PktFull,
        Some(s) => log_level_of(s@)->0,
    })
}

/// Parses an optional unsigned value up to `max`, falling back to `default` when unset.
fn unsigned_or(o: &Option<String>, max: u64, default: u64) -> (r: Option<u64>)
    requires
        default <= max,
    ensures
        (match o {
            None => r == Some(default),
            Some(s) => (match unsigned_of(s@, max as nat) {
                Some(v) => r == Some(v as u64),
                None => r is None,
            }),
        }),
{
    match o {
        None => Some(default),
        Some(s) => {
            let cs = crate::protocol::display::chars_of(s.as_str());
            parse_unsigned(cs.as_slice(), max)
        },
    }
}

impl Config {
    /// Builds the configuration from the variables `vars` (see `config_from`), or names the first
    /// one that does not parse (see `config_error`). `debug_build` selects the debug defaults;
    /// `available_parallelism` is the default worker count.
    pub fn load(vars: &EnvVars, debug_build: bool, available_parallelism: usize) -> (r: Result<Config, StackError>)
        requires
            available_parallelism >= 1,
        ensures
            (match config_error(*vars) {
                Some(var) => r == Err::<Config, _>(StackError::UnparsableConfigVar { var }),
                None => r matches Ok(c) && config_from(*vars, debug_build, available_parallelism, c),
            }),
    {
        let worker_count = match unsigned_or(&vars.worker_count, usize::MAX as u64, available_parallelism as u64) {
            Some(n) if n >= 1 => n as usize,
            _ => return Err(StackError::UnparsableConfigVar { var: ConfigVar::WorkerCount }),
        };
        let app = match &vars.app {
            None => ServerApp::Echo,
            Some(s) => match ServerApp::parse(s.as_str()) {
                Ok(a) => a,
                Err(_) => return Err(StackError::UnparsableConfigVar { var: ConfigVar::App }),
            },
        };
        let initial_rto = match unsigned_or(&vars.init_rto_millis, u64::MAX, if debug_build { 250 } else { 1000 }) {
            Some(v) => v,
            None => return Err(StackError::UnparsableConfigVar { var: ConfigVar::InitRtoMillis }),
        };
        let max_retries = match unsigned_or(&vars.max_retransmits, 255, 15) {
            Some(v) => v as u8,
            None => return Err(StackError::UnparsableConfigVar { var: ConfigVar::MaxRetransmits }),
        };
        let grace_secs = match unsigned_or(&vars.grace_secs, u64::MAX, if debug_build { 5 } else { 60 }) {
            Some(v) => v,
            None => return Err(StackError::UnparsableConfigVar { var: ConfigVar::GraceSecs }),
        };
        let log_level = match &vars.log_level {
            None => LogLevel::PktFull,
            Some(s) => match LogLevel::parse(s.as_str()) {
                Ok(l) => l,
                Err(_) => return Err(StackError::UnparsableConfigVar { var: ConfigVar::LogLevel }),
            },
        };
        let tun_name = match &vars.tun_name {
            None => {
                proof {
                    reveal_strlit("tun0");
                }
                String::from_str("tun0")
            },
            Some(s) => s.clone(),
        };
        let grace_period = grace_secs as u128 * 1000;
        let c = Config { tun_name, worker_count, app, initial_rto, max_retries, grace_period, log_level };
        assert(c.tun_name@ == (match vars.tun_name {
            None => seq!['t', 'u', 'n', '0'],
            Some(s) => s@,
        }));
        assert(c.worker_count == (match vars.worker_count {
            None => available_parallelism as nat,
            Some(s) => unsigned_of(s@, usize::MAX as nat)->0,
        }));
        assert(c.app == (match vars.app {
            None => ServerApp::Echo,
            Some(s) => crate::application::app_of(s@)->0,
        }));
        assert(c.initial_rto == (match vars.init_rto_millis {
            None => if debug_build { 250nat } else { 1000nat },
            Some(s) => unsigned_of(s@, u64::MAX as nat)->0,
        }));
        assert(c.max_retries == (match vars.max_retransmits {
            None => 15nat,
            Some(s) => unsigned_of(s@, 255)->0,
        }));
        assert(c.log_level == (match vars.log_level {
            None => LogLevel::PktFull,
            Some(s) => log_level_of(s@)->0,
        }));
        Ok(c)
    }
}

} // verus!
