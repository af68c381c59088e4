//! The command line: `--config PATH`, `--theme PATH` and `--debug [FILE]`.

use vstd::prelude::*;
use crate::settings::{CliOverrides, DebugOverride};
use crate::text::clone_opt;

verus! {

/// The parsed command line.
#[derive(Debug)]
pub struct Cli {
    /// Load `config.toml` from `PATH` (overrides the XDG and `/etc` search).
    pub config: Option<String>,
    /// Load `theme.toml` from `PATH`.
    pub theme: Option<String>,
    /// Enable tracing, with the log file given (the default log file where the
    /// flag came without one).
    pub debug: Option<Option<String>>,
}

/// The overrides a command line stands for: `--debug FILE` logs to `FILE`, a bare
/// `--debug` only enables tracing.
pub open spec fn overrides_of(cli: &Cli) -> CliOverrides {
    CliOverrides {
        config: cli.config,
        theme: cli.theme,
        debug: match cli.debug {
            Some(Some(p)) => Some(DebugOverride::LogFile(p)),
            Some(None) => Some(DebugOverride::Enabled),
            None => None,
        },
    }
}

impl<'a> From<&'a Cli> for CliOverrides {
    fn from(cli: &'a Cli) -> (r: CliOverrides) {
        let debug = match &cli.debug {
            Some(Some(path)) => Some(DebugOverride::LogFile(path.clone())),
            Some(None) => Some(DebugOverride::Enabled),
            None => None,
        };
        CliOverrides { config: clone_opt(&cli.config), theme: clone_opt(&cli.theme), debug }
    }
}

impl<'a> vstd::std_specs::convert::FromSpecImpl<&'a Cli> for CliOverrides {
    open spec fn obeys_from_spec() -> bool {
        true
    }

    open spec fn from_spec(cli: &'a Cli) -> CliOverrides {
        overrides_of(cli)
    }
}

} // verus!
