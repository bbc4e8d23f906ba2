//! The resolved options of one run, and how they are read from a parsed
//! command line.

use vstd::prelude::*;
use vstd::string::*;

verus! {

/// The poll interval in milliseconds where none is given.
pub const DEFAULT_INTERVAL_MS: u64 = 300;

/// Why a command line cannot be turned into a configuration.
#[derive(Clone, Copy, Debug, PartialEq, Eq, Structural)]
pub enum ConfigError {
    /// No file or directory to watch was named.
    MissingTargets,
    /// The interval is not an unsigned decimal number that fits 64 bits.
    MalformedInterval,
}

impl ConfigError {
    /// The message shown to the user for this error.
    pub fn describe(&self) -> (message: &'static str)
        ensures
            message@ == match *self {
                ConfigError::MissingTargets => "Failed to get files or directories to watch"@,
                ConfigError::MalformedInterval => "Malformed interval, expected integer"@,
            },
    {
        match self {
            ConfigError::MissingTargets => "Failed to get files or directories to watch",
            ConfigError::MalformedInterval => "Malformed interval, expected integer",
        }
    }
}

/// The options of a run, fixed before the loop starts.
#[derive(Debug, PartialEq, Eq)]
pub struct RunConfig {
    /// The files and directories to watch.
    pub targets: Vec<String>,
    /// Milliseconds to sleep between two polls.
    pub interval_ms: u64,
    /// The command template to run on a change, if any.
    pub command: Option<Vec<String>>,
    /// Print the changed paths of each cycle.
    pub print: bool,
    /// Report when a child is spawned, killed, waited for or has exited.
    pub verbose: bool,
    /// Clear the terminal before each spawn.
    pub clear: bool,
    /// Terminate a running child in place of waiting for it.
    pub kill: bool,
    /// Run the command once at startup, changes or not.
    pub start: bool,
}

/// The mathematical content of a [`RunConfig`].
pub struct RunConfigModel {
    pub targets: Seq<Seq<char>>,
    pub interval_ms: u64,
    pub command: Option<Seq<Seq<char>>>,
    pub print: bool,
    pub verbose: bool,
    pub clear: bool,
    pub kill: bool,
    pub start: bool,
}

impl View for RunConfig {
    type V = RunConfigModel;

    open spec fn view(&self) -> RunConfigModel {
        RunConfigModel {
            targets: self.targets.deep_view(),
            interval_ms: self.interval_ms,
            command: self.command.deep_view(),
            print: self.print,
            verbose: self.verbose,
            clear: self.clear,
            kill: self.kill,
            start: self.start,
        }
    }
}

/// Whether `c` is one of the ten decimal digits.
pub open spec fn is_digit(c: char) -> bool {
    '0' <= c && c <= '9'
}

/// The number a decimal digit stands for; zero for any other character.
pub open spec fn digit_value(c: char) -> nat {
    if is_digit(c) {
        (c as int - '0' as int) as nat
    } else {
        0
    }
}

/// The number written by a sequence of decimal digits, most significant first.
pub open spec fn decimal(digits: Seq<char>) -> nat
    decreases digits.len(),
{
    if digits.len() == 0 {
        0
    } else {
        decimal(digits.drop_last()) * 10 + digit_value(digits.last())
    }
}

/// Whether every character of `s` is a decimal digit.
pub open spec fn all_digits(s: Seq<char>) -> bool {
    forall|i: int| 0 <= i < s.len() ==> is_digit(#[trigger] s[i])
}

/// The text without a leading plus sign, if it has one.
pub open spec fn without_sign(text: Seq<char>) -> Seq<char> {
    if text.len() > 0 && text[0] == '+' {
        text.subrange(1, text.len() as int)
    } else {
        text
    }
}

/// The interval written by `text`: an optional plus sign, then one or more
/// decimal digits and nothing else, naming a number that fits 64 bits.
pub open spec fn interval_of(text: Seq<char>) -> Option<u64> {
    let digits = without_sign(text);
    if digits.len() > 0 && all_digits(digits) && decimal(digits) <= u64::MAX {
        Some(decimal(digits) as u64)
    } else {
        None
    }
}

/// A number never gets smaller by writing more digits behind it.
pub proof fn lemma_decimal_prefix(digits: Seq<char>, k: int)
    requires
        0 <= k <= digits.len(),
    ensures
        decimal(digits.take(k)) <= decimal(digits),
    decreases digits.len() - k,
{
    if k == digits.len() {
        assert(digits.take(k) =~= digits);
    } else {
        lemma_decimal_prefix(digits.drop_last(), k);
        assert(digits.drop_last().take(k) =~= digits.take(k));
    }
}

/// Reads a poll interval.  Returns `None` unless the text is an optional plus
/// sign followed by decimal digits whose value fits 64 bits.
pub fn parse_interval(text: &str) -> (r: Option<u64>)
    ensures
        r == interval_of(text@),
{
    let n: usize = text.unicode_len();
    let start: usize = if n > 0 && text.get_char(0) == '+' {
        1
    } else {
        0
    };
    let ghost digits = without_sign(text@);
    assert(digits =~= text@.subrange(start as int, n as int));
    if start >= n {
        return None;
    }
    let mut value: u64 = 0;
    let mut i: usize = start;
    while i < n
        invariant
            start <= i <= n,
            n == text@.len(),
            digits == without_sign(text@),
            digits == text@.subrange(start as int, n as int),
            all_digits(digits.take(i - start)),
            value == decimal(digits.take(i - start)),
        decreases n - i,
    {
        let c = text.get_char(i);
        let ghost next = digits.take(i - start + 1);
        assert(next.drop_last() =~= digits.take(i - start));
        assert(next.last() == c);
        if !(c >= '0' && c <= '9') {
            assert(!is_digit(digits[i - start]));
            return None;
        }
        let d: u64 = (c as u32 - '0' as u32) as u64;
        assert(d == digit_value(c));
        if value > (u64::MAX - d) / 10 {
            proof {
                assert(decimal(next) > u64::MAX);
                lemma_decimal_prefix(digits, i - start + 1);
            }
            return None;
        }
        value = value * 10 + d;
        assert forall|j: int| 0 <= j < next.len() implies is_digit(#[trigger] next[j]) by {
            if j < next.len() - 1 {
                assert(next[j] == digits.take(i - start)[j]);
            }
        }
        i += 1;
    }
    assert(digits.take(n - start) =~= digits);
    Some(value)
}

/// The configuration that the given option values resolve to.  Each of
/// `targets`, `interval` and `command` is the list of values given for that
/// option, or `None` where the option is absent.
pub open spec fn resolved(
    targets: Option<Seq<Seq<char>>>,
    interval: Option<Seq<Seq<char>>>,
    command: Option<Seq<Seq<char>>>,
    print: bool,
    verbose: bool,
    clear: bool,
    kill: bool,
    start: bool,
) -> Result<RunConfigModel, ConfigError> {
    if targets is None || targets->0.len() == 0 {
        Err(ConfigError::MissingTargets)
    } else if interval is Some && (interval->0.len() == 0 || interval_of(interval->0[0]) is None) {
        Err(ConfigError::MalformedInterval)
    } else {
        Ok(
            RunConfigModel {
                targets: targets->0,
                interval_ms: match interval {
                    Some(values) => interval_of(values[0])->0,
                    None => DEFAULT_INTERVAL_MS,
                },
                command,
                print,
                verbose,
                clear,
                kill,
                start,
            },
        )
    }
}

/// Whether `outcome` is what `expected` describes: the same error, or a
/// configuration with that content.
pub open spec fn resolves_to(
    outcome: Result<RunConfig, ConfigError>,
    expected: Result<RunConfigModel, ConfigError>,
) -> bool {
    match outcome {
        Ok(config) => expected == Ok::<RunConfigModel, ConfigError>(config@),
        Err(e) => expected == Err::<RunConfigModel, ConfigError>(e),
    }
}

impl RunConfig {
    /// Builds the configuration from the values of each option.  Fails when
    /// no watch target is given, and otherwise when an interval is given that
    /// is not a number; the first value of the interval option counts.
    pub fn resolve(
        targets: Option<Vec<String>>,
        interval: Option<Vec<String>>,
        command: Option<Vec<String>>,
        print: bool,
        verbose: bool,
        clear: bool,
        kill: bool,
        start: bool,
    ) -> (r: Result<RunConfig, ConfigError>)
        ensures
            resolves_to(
                r,
                resolved(
                    targets.deep_view(),
                    interval.deep_view(),
                    command.deep_view(),
                    print,
                    verbose,
                    clear,
                    kill,
                    start,
                ),
            ),
    {
        let targets = match targets {
            Some(t) => t,
            None => { return Err(ConfigError::MissingTargets); },
        };
        if targets.len() == 0 {
            return Err(ConfigError::MissingTargets);
        }
        let interval_ms: u64 = match &interval {
            Some(values) => {
                if values.len() == 0 {
                    return Err(ConfigError::MalformedInterval);
                }
                match parse_interval(values[0].as_str()) {
                    Some(ms) => ms,
                    None => { return Err(ConfigError::MalformedInterval); },
                }
            },
            None => DEFAULT_INTERVAL_MS,
        };
        Ok(RunConfig { targets, interval_ms, command, print, verbose, clear, kill, start })
    }

    /// Reads the configuration out of a parsed command line.
    pub fn from_config(config: &libcli::args::Config) -> (r: Result<RunConfig, ConfigError>)
        ensures
            resolves_to(
                r,
                resolved(
                    option_values(*config, "(unnamed)"@),
                    option_values(*config, "interval"@),
                    option_values(*config, "exec"@),
                    option_values(*config, "print"@) is Some,
                    option_values(*config, "verbose"@) is Some,
                    option_values(*config, "clear"@) is Some,
                    option_values(*config, "kill"@) is Some,
                    option_values(*config, "start"@) is Some,
                ),
            ),
    {
        let targets = option_of(config, "(unnamed)");
        let interval = option_of(config, "interval");
        let command = option_of(config, "exec");
        let print = option_of(config, "print").is_some();
        let verbose = option_of(config, "verbose").is_some();
        let clear = option_of(config, "clear").is_some();
        let kill = option_of(config, "kill").is_some();
        let start = option_of(config, "start").is_some();
        RunConfig::resolve(targets, interval, command, print, verbose, clear, kill, start)
    }
}

#[verifier::external_type_specification]
#[verifier::external_body]
pub struct ExConfig(libcli::args::Config);

/// The values that a parsed command line holds for the option called `name`:
/// `None` where the option was not given, else what followed it.
pub uninterp spec fn option_values(config: libcli::args::Config, name: Seq<char>) -> Option<
    Seq<Seq<char>>,
>;

/// `libcli::args::Config::option`: looks `name` up among the parsed options
/// and hands out a copy of its values.  Trusted: the result is what the
/// parsed command line holds for that name, and nothing is said of which
/// names it holds.
#[verifier::external_body]
fn option_of(config: &libcli::args::Config, name: &str) -> (values: Option<Vec<String>>)
    ensures
        values.deep_view() == option_values(*config, name@),
{
    config.option(name).map(|v| v.to_vec())
}

} // verus!
