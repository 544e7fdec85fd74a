//! The configuration of the service.

use vstd::prelude::*;
use crate::utils::number::{parse_decimal, parse_unsigned};

verus! {

/// The port that is used where none is configured.
pub const DEFAULT_PORT: u16 = 8080;

/// The configuration of the service.
#[derive(Clone, Copy, Debug, PartialEq, Eq)]
pub struct Config {
    pub port: u16,
}

impl Config {
    /// The configuration that the value of the port setting gives: the
    /// default port where the setting is absent, the number that the value
    /// denotes where it denotes a port, and none otherwise.
    pub open spec fn spec_from_env(port: Option<Seq<char>>) -> Option<Config> {
        match port {
            None => Some(Config { port: DEFAULT_PORT }),
            Some(text) => match parse_unsigned(text, u16::MAX as nat) {
                Some(n) => Some(Config { port: n as u16 }),
                None => None,
            },
        }
    }

    /// Reads the configuration from the value of the port setting, if the
    /// setting is present.
    pub fn from_env(port: Option<&str>) -> (config: Option<Config>)
        ensures
            config == Config::spec_from_env(
                match port {
                    Some(text) => Some(text@),
                    None => None,
                },
            ),
    {
        match port {
            None => Some(Config { port: DEFAULT_PORT }),
            Some(text) => match parse_decimal(text, u16::MAX as u64) {
                Some(n) => Some(Config { port: n as u16 }),
                None => None,
            },
        }
    }
}

} // verus!
