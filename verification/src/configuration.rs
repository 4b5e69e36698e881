//! Process configuration: the settings shape loaded at startup, and the
//! address strings derived from it.
//!
//! Loading the settings from files or the environment is an external
//! collaborator's job; the library holds the parsed values and the exact
//! address formatting.

use vstd::prelude::*;
use vstd::string::StringExecFns;
use crate::result::{Error, ErrorKind};

verus! {

/// All process settings.
#[derive(Clone)]
pub struct Settings {
    pub database: DatabaseSettings,
    pub application: ApplicationSettings,
    pub log: Option<Log>,
}

/// Where the database lives.
#[derive(Clone)]
pub struct DatabaseSettings {
    pub host: String,
    pub port: u16,
    pub name: String,
}

/// Where the web and game endpoints listen.
#[derive(Clone)]
pub struct ApplicationSettings {
    pub host: String,
    pub web_port: u16,
    pub games_port: u16,
}

/// Optional logging settings.
#[derive(Clone)]
pub struct Log {
    pub level: Option<String>,
}

/// The logging verbosity a configuration may ask for.
#[derive(Clone, Copy, PartialEq, Eq, Structural, Debug)]
pub enum LogLevel {
    Trace,
    Debug,
    Info,
    Warn,
    Error,
}

/// The decimal digit character for a value below ten.
pub open spec fn dec_digit(d: int) -> char {
    if d == 0 { '0' } else if d == 1 { '1' } else if d == 2 { '2' } else if d == 3 { '3' }
    else if d == 4 { '4' } else if d == 5 { '5' } else if d == 6 { '6' } else if d == 7 { '7' }
    else if d == 8 { '8' } else { '9' }
}

/// The decimal form of a non-negative number, most significant digit
/// first.
pub open spec fn dec_str(n: int) -> Seq<char>
    decreases n
    when n >= 0
{
    if n < 10 {
        seq![dec_digit(n)]
    } else {
        dec_str(n / 10) + seq![dec_digit(n % 10)]
    }
}

/// Append one decimal digit to `s`.
fn append_digit(s: &mut String, d: u16)
    requires
        d < 10,
    ensures
        final(s)@ == old(s)@ + seq![dec_digit(d as int)],
{
    proof {
        reveal_strlit("0");
        reveal_strlit("1");
        reveal_strlit("2");
        reveal_strlit("3");
        reveal_strlit("4");
        reveal_strlit("5");
        reveal_strlit("6");
        reveal_strlit("7");
        reveal_strlit("8");
        reveal_strlit("9");
    }
    match d {
        0 => s.append("0"),
        1 => s.append("1"),
        2 => s.append("2"),
        3 => s.append("3"),
        4 => s.append("4"),
        5 => s.append("5"),
        6 => s.append("6"),
        7 => s.append("7"),
        8 => s.append("8"),
        _ => s.append("9"),
    }
}

/// Append the decimal form of `n` to `s`.
fn push_u16_decimal(s: &mut String, n: u16)
    ensures
        final(s)@ == old(s)@ + dec_str(n as int),
    decreases n,
{
    if n >= 10 {
        push_u16_decimal(s, n / 10);
        append_digit(s, n % 10);
        proof {
            assert(final(s)@ =~= old(s)@ + dec_str(n as int));
        }
    } else {
        append_digit(s, n);
    }
}

/// The log level a lowercase level name denotes, if any.
pub open spec fn log_level_of(s: Seq<char>) -> Option<LogLevel> {
    if s == "trace"@ {
        Some(LogLevel::Trace)
    } else if s == "debug"@ {
        Some(LogLevel::Debug)
    } else if s == "info"@ {
        Some(LogLevel::Info)
    } else if s == "warn"@ {
        Some(LogLevel::Warn)
    } else if s == "error"@ {
        Some(LogLevel::Error)
    } else {
        None
    }
}

/// The level name this configuration asks for, if it names one.
pub open spec fn requested_level(s: Settings) -> Option<Seq<char>> {
    match s.log {
        Some(log) => match log.level {
            Some(level) => Some(level@),
            None => None,
        },
        None => None,
    }
}

impl Settings {
    /// The configured log level: the named level (given as a lowercase
    /// name), the default `Info` when none is named, and a configuration
    /// error for an unknown name.
    pub fn get_log_level(&self) -> (r: Result<LogLevel, Error>)
        ensures
            match requested_level(*self) {
                Some(name) => match log_level_of(name) {
                    Some(level) => r == Ok::<LogLevel, Error>(level),
                    None => r matches Err(e)
                        && e.spec_kind() == ErrorKind::ConfigurationError,
                },
                None => r == Ok::<LogLevel, Error>(LogLevel::Info),
            },
    {
        let named: Option<&String> = match &self.log {
            Some(log) => match &log.level {
                Some(level) => Some(level),
                None => None,
            },
            None => None,
        };
        match named {
            None => Ok(LogLevel::Info),
            Some(level) => {
                if level.eq(&String::from_str("trace")) {
                    Ok(LogLevel::Trace)
                } else if level.eq(&String::from_str("debug")) {
                    Ok(LogLevel::Debug)
                } else if level.eq(&String::from_str("info")) {
                    Ok(LogLevel::Info)
                } else if level.eq(&String::from_str("warn")) {
                    Ok(LogLevel::Warn)
                } else if level.eq(&String::from_str("error")) {
                    Ok(LogLevel::Error)
                } else {
                    Err(Error::new(
                        ErrorKind::ConfigurationError,
                        String::from_str("log level does not exist"),
                    ))
                }
            },
        }
    }
}

impl DatabaseSettings {
    /// The connection string `host:port/name`.
    pub fn get_connection_string(&self) -> (r: String)
        ensures
            r@ == self.host@ + seq![':'] + dec_str(self.port as int) + seq!['/'] + self.name@,
    {
        proof {
            reveal_strlit(":");
            reveal_strlit("/");
        }
        let mut s = self.host.clone();
        s.append(":");
        push_u16_decimal(&mut s, self.port);
        s.append("/");
        s.append(self.name.as_str());
        proof {
            assert(s@ =~= self.host@ + seq![':'] + dec_str(self.port as int) + seq!['/']
                + self.name@);
        }
        s
    }
}

impl ApplicationSettings {
    /// The game endpoint address `host:games_port`.
    pub fn get_game_path(&self) -> (r: String)
        ensures
            r@ == self.host@ + seq![':'] + dec_str(self.games_port as int),
    {
        proof {
            reveal_strlit(":");
        }
        let mut s = self.host.clone();
        s.append(":");
        push_u16_decimal(&mut s, self.games_port);
        proof {
            assert(s@ =~= self.host@ + seq![':'] + dec_str(self.games_port as int));
        }
        s
    }

    /// The web endpoint address `host:web_port`.
    pub fn get_web_path(&self) -> (r: String)
        ensures
            r@ == self.host@ + seq![':'] + dec_str(self.web_port as int),
    {
        proof {
            reveal_strlit(":");
        }
        let mut s = self.host.clone();
        s.append(":");
        push_u16_decimal(&mut s, self.web_port);
        proof {
            assert(s@ =~= self.host@ + seq![':'] + dec_str(self.web_port as int));
        }
        s
    }
}

} // verus!
