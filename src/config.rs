//! The relay's command line: where to connect or listen, and in which mode.
use vstd::prelude::*;

use crate::text::{ipv4_octets, is_ipv4_text, is_port_text, parse_ipv4, parse_port, port_value};

verus! {

/// The exit code of a process that was given a bad command line.
pub const CONFIG_EXIT_CODE: i32 = 1;

/// Why a command line was refused.
#[derive(Clone, Copy, Debug, PartialEq, Eq, Structural)]
pub enum ConfigError {
    TooFewArgs,
    TooManyArgs,
    InvalidAddress,
    InvalidPort,
}

impl ConfigError {
    /// The text shown to the operator.
    pub fn message(&self) -> (r: &'static str)
        ensures
            r@ == self.message_spec(),
    {
        match self {
            ConfigError::TooFewArgs => "Too few args",
            ConfigError::TooManyArgs => "Too many args",
            ConfigError::InvalidAddress => "Invalid ipv4 address",
            ConfigError::InvalidPort => "Invalid port number",
        }
    }

    /// The text shown to the operator, as characters.
    pub open spec fn message_spec(&self) -> Seq<char> {
        match self {
            ConfigError::TooFewArgs => "Too few args"@,
            ConfigError::TooManyArgs => "Too many args"@,
            ConfigError::InvalidAddress => "Invalid ipv4 address"@,
            ConfigError::InvalidPort => "Invalid port number"@,
        }
    }

    /// Every command-line error ends the process with the same code.
    pub fn exit_code(&self) -> (r: i32)
        ensures
            r == CONFIG_EXIT_CODE,
    {
        CONFIG_EXIT_CODE
    }
}

/// Where the relay meets its peer, and whether it waits for the peer (listen)
/// or dials it (connect).
#[derive(Clone, Copy, Debug, PartialEq, Eq)]
pub struct Config {
    pub address: [u8; 4],
    pub port: u16,
    pub listen: bool,
}

/// A configuration as values.
pub struct ConfigView {
    pub address: Seq<u8>,
    pub port: u16,
    pub listen: bool,
}

impl View for Config {
    type V = ConfigView;

    open spec fn view(&self) -> ConfigView {
        ConfigView { address: self.address@, port: self.port, listen: self.listen }
    }
}

/// The texts of a command line.
pub open spec fn arg_texts(args: Seq<String>) -> Seq<Seq<char>> {
    args.map_values(|a: String| a@)
}

/// What a command line means. `args[0]` is the program's name; the address
/// and the port follow. Any third argument after them selects listen mode,
/// whatever it says.
pub open spec fn parse_args(args: Seq<Seq<char>>) -> Result<ConfigView, ConfigError> {
    if args.len() <= 2 {
        Err(ConfigError::TooFewArgs)
    } else if args.len() > 4 {
        Err(ConfigError::TooManyArgs)
    } else if !is_ipv4_text(args[1]) {
        Err(ConfigError::InvalidAddress)
    } else if !is_port_text(args[2]) {
        Err(ConfigError::InvalidPort)
    } else {
        Ok(
            ConfigView {
                address: ipv4_octets(args[1]),
                port: port_value(args[2]) as u16,
                listen: args.len() == 4,
            },
        )
    }
}

impl Config {
    /// Reads a command line: the program's name, an IPv4 address, a port and,
    /// for listen mode, one more argument.
    pub fn new(args: &[String]) -> (r: Result<Config, ConfigError>)
        ensures
            match r {
                Ok(c) => parse_args(arg_texts(args@)) == Ok::<ConfigView, ConfigError>(c@),
                Err(e) => parse_args(arg_texts(args@)) == Err::<ConfigView, ConfigError>(e),
            },
    {
        let ghost texts = arg_texts(args@);
        let n = args.len();
        if n <= 2 {
            return Err(ConfigError::TooFewArgs);
        }
        if n > 4 {
            return Err(ConfigError::TooManyArgs);
        }
        let listen = n == 4;
        assert(texts[1] == args@[1]@ && texts[2] == args@[2]@);
        let address = match parse_ipv4(args[1].as_str()) {
            Some(a) => a,
            None => return Err(ConfigError::InvalidAddress),
        };
        let port = match parse_port(args[2].as_str()) {
            Some(p) => p,
            None => return Err(ConfigError::InvalidPort),
        };
        Ok(Config { address, port, listen })
    }
}

/// With a valid address and port, two arguments after the program's name
/// mean connect mode and three mean listen mode, whatever the third says.
pub proof fn lemma_mode_follows_arg_count(args: Seq<Seq<char>>)
    requires
        args.len() == 3 || args.len() == 4,
        is_ipv4_text(args[1]),
        is_port_text(args[2]),
    ensures
        parse_args(args) is Ok,
        parse_args(args)->Ok_0.listen == (args.len() == 4),
        parse_args(args)->Ok_0.address == ipv4_octets(args[1]),
        parse_args(args)->Ok_0.port == port_value(args[2]),
{
}

/// Fewer than two or more than three arguments after the program's name are
/// refused for their number alone, before anything else is looked at.
pub proof fn lemma_bad_arg_count_refused(args: Seq<Seq<char>>)
    requires
        args.len() <= 2 || args.len() >= 5,
    ensures
        parse_args(args) == (if args.len() <= 2 {
            Err::<ConfigView, ConfigError>(ConfigError::TooFewArgs)
        } else {
            Err::<ConfigView, ConfigError>(ConfigError::TooManyArgs)
        }),
{
}

} // verus!
