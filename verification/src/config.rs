use crate::errors::{AppError, ConfigError};
use crate::utils::text::{blank, is_blank};
use vstd::prelude::*;
use vstd::std_specs::iter::IteratorSpec;
use vstd::string::*;

verus! {

/// The settings that the application runs with.
#[derive(Debug, Clone, PartialEq, Eq)]
pub struct Config {
    pub database_url: String,
    pub server_host: String,
    pub server_port: u16,
    pub kratos_api_key: String,
}

/// The settings as they are found in the environment: each variable's value, or `None`
/// where the variable is not set.
#[derive(Debug, Clone, PartialEq, Eq)]
pub struct Environment {
    /// `DATABASE_URL`
    pub database_url: Option<String>,
    /// `KRATOS_API_KEY`
    pub kratos_api_key: Option<String>,
    /// `SERVER_HOST`
    pub server_host: Option<String>,
    /// `SERVER_PORT`
    pub server_port: Option<String>,
}

/// The value of a decimal digit, and `None` for any other character.
pub open spec fn digit_of(c: char) -> Option<nat> {
    let code = c as u32;
    if 0x30 <= code <= 0x39 {
        Some((code - 0x30) as nat)
    } else {
        None
    }
}

/// The number that a sequence of decimal digits denotes, and `None` for the empty sequence
/// and for one that holds anything but digits.
pub open spec fn numeral(digits: Seq<char>) -> Option<nat>
    decreases digits.len(),
{
    if digits.len() == 0 {
        None
    } else {
        match digit_of(digits.last()) {
            None => None,
            Some(d) => if digits.len() == 1 {
                Some(d)
            } else {
                match numeral(digits.drop_last()) {
                    Some(value) => Some(value * 10 + d),
                    None => None,
                }
            },
        }
    }
}

/// A text without the plus sign that it may begin with.
pub open spec fn unsigned(text: Seq<char>) -> Seq<char> {
    if text.len() > 0 && text[0] == '+' {
        text.drop_first()
    } else {
        text
    }
}

/// The port that a text denotes: the text is a sequence of decimal digits, which a plus
/// sign may precede, and the number is at most 65535. Anything else, white space included,
/// denotes no port.
pub open spec fn port_number(text: Seq<char>) -> Option<u16> {
    match numeral(unsigned(text)) {
        Some(value) => if value <= 0xffff {
            Some(value as u16)
        } else {
            None
        },
        None => None,
    }
}

/// A sequence that holds a character that is no digit denotes no number.
proof fn lemma_numeral_needs_digits(digits: Seq<char>, k: int)
    requires
        0 <= k < digits.len(),
        digit_of(digits[k]) is None,
    ensures
        numeral(digits) is None,
    decreases digits.len(),
{
    if k < digits.len() - 1 {
        lemma_numeral_needs_digits(digits.drop_last(), k);
    }
}

/// Reads a port from a text.
pub fn parse_port(text: &str) -> (port: Option<u16>)
    ensures
        port == port_number(text@),
{
    let ghost len: int = text@.len() as int;
    let ghost start: int = if len > 0 && text@[0] == '+' {
        1
    } else {
        0
    };
    let ghost digits = unsigned(text@);
    assert(digits =~= text@.subrange(start, len));
    let mut rest = text.chars();
    let ghost mut seen: int = 0;
    let mut first: bool = true;
    let mut any: bool = false;
    let mut value: u32 = 0;
    loop
        invariant
            len == text@.len(),
            start == (if len > 0 && text@[0] == '+' {
                1int
            } else {
                0int
            }),
            digits == unsigned(text@),
            digits == text@.subrange(start, len),
            0 <= seen <= len,
            rest.remaining() == text@.subrange(seen, len),
            first <==> seen == 0,
            seen > 0 ==> seen >= start,
            value <= 0x10000,
            any <==> seen > start,
            !any ==> value == 0,
            any ==> (numeral(text@.subrange(start, seen)) matches Some(number) && value == (
            if number <= 0x10000 {
                number
            } else {
                0x10000
            })),
        decreases len - seen,
    {
        match rest.next() {
            None => {
                assert(text@.subrange(start, seen) =~= digits);
                if !any || value > 0xffff {
                    return None;
                }
                return Some(value as u16);
            },
            Some(c) => {
                assert(c == text@[seen]);
                proof {
                    assert(text@.subrange(seen, len).drop_first() =~= text@.subrange(
                        seen + 1,
                        len,
                    ));
                }
                if first && c == '+' {
                    first = false;
                } else {
                    let code: u32 = c as u32;
                    if code < 0x30 || code > 0x39 {
                        proof {
                            assert(digits[seen - start] == c);
                            lemma_numeral_needs_digits(digits, seen - start);
                        }
                        return None;
                    }
                    let d: u32 = code - 0x30;
                    proof {
                        let longer = text@.subrange(start, seen + 1);
                        assert(longer.last() == c);
                        assert(longer.drop_last() =~= text@.subrange(start, seen));
                        assert(digit_of(c) == Some(d as nat));
                        assert(numeral(longer) == if longer.len() == 1 {
                            Some(d as nat)
                        } else {
                            match numeral(longer.drop_last()) {
                                Some(value) => Some(value * 10 + d as nat),
                                None => None,
                            }
                        });
                    }
                    let next: u32 = value * 10 + d;
                    value = if next > 0x10000 {
                        0x10000
                    } else {
                        next
                    };
                    first = false;
                    any = true;
                }
                proof {
                    seen = seen + 1;
                }
            },
        }
    }
}

/// A variable is present where it is set to more than white space.
pub open spec fn present(value: Option<String>) -> bool {
    value matches Some(text) && !blank(text@)
}

/// The host that the server binds to: the one given, or the local host.
pub open spec fn host_of(value: Option<String>) -> Seq<char> {
    match value {
        Some(host) => host@,
        None => "127.0.0.1"@,
    }
}

/// The port that the server binds to: the number given, or 8080 where none is given;
/// `None` where what is given is no port number.
pub open spec fn port_of(value: Option<String>) -> Option<u16> {
    match value {
        Some(text) => port_number(text@),
        None => Some(8080),
    }
}

/// What is wrong with an environment that holds no valid settings: the first of a missing
/// database address, a missing key, and a port that is no number.
pub open spec fn fault_of(environment: Environment) -> ConfigError {
    if !present(environment.database_url) {
        ConfigError::MissingDatabaseUrl
    } else if !present(environment.kratos_api_key) {
        ConfigError::MissingKratosApiKey
    } else {
        ConfigError::InvalidServerPort(environment.server_port->0)
    }
}

fn is_present(value: &Option<String>) -> (yes: bool)
    ensures
        yes == present(*value),
{
    match value {
        Some(text) => !is_blank(text.as_str()),
        None => false,
    }
}

/// Reads the settings from the values of the environment.
///
/// The database address and the key must be present. The host is the local host and the
/// port 8080 where they are not set; a port that is set must be a number that fits a port.
pub fn load_config(environment: Environment) -> (result: Result<Config, AppError>)
    ensures
        result is Ok <==> present(environment.database_url) && present(
            environment.kratos_api_key,
        ) && port_of(environment.server_port) is Some,
        result matches Ok(config) ==> {
            &&& Some(config.database_url) == environment.database_url
            &&& Some(config.kratos_api_key) == environment.kratos_api_key
            &&& config.server_host@ == host_of(environment.server_host)
            &&& Some(config.server_port) == port_of(environment.server_port)
        },
        result matches Err(err) ==> err == AppError::Config(fault_of(environment)),
{
    if !is_present(&environment.database_url) {
        return Err(AppError::Config(ConfigError::MissingDatabaseUrl));
    }
    if !is_present(&environment.kratos_api_key) {
        return Err(AppError::Config(ConfigError::MissingKratosApiKey));
    }
    let server_port: u16 = match environment.server_port {
        Some(text) => match parse_port(text.as_str()) {
            Some(port) => port,
            None => {
                return Err(AppError::Config(ConfigError::InvalidServerPort(text)));
            },
        },
        None => 8080,
    };
    let server_host = match environment.server_host {
        Some(host) => host,
        None => String::from_str("127.0.0.1"),
    };
    match (environment.database_url, environment.kratos_api_key) {
        (Some(database_url), Some(kratos_api_key)) => Ok(
            Config { database_url, server_host, server_port, kratos_api_key },
        ),
        _ => Err(AppError::Config(ConfigError::MissingDatabaseUrl)),
    }
}

} // verus!
