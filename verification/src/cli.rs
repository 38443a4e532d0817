//! The command line: the commands it names and the logging it asks for.
use vstd::prelude::*;

use crate::logging::{
    format_named, level_named, parse_log_format, parse_log_level, Level, LogConfig, LogFormat,
};
use crate::text::{ascii_lower_seq, concat, str_eq};

verus! {

/// A command of the command line.
pub enum CliCommand {
    Stow {
        source: String,
        target: String,
        dry_run: bool,
        log_level: Option<String>,
        log_format: Option<String>,
        verbose: bool,
        quiet: bool,
    },
    Unstow {
        dry_run: bool,
        log_level: Option<String>,
        log_format: Option<String>,
        verbose: bool,
        quiet: bool,
    },
}

/// The values that the argument parser found for the chosen subcommand.
pub struct ParsedArgs {
    pub subcommand: String,
    pub source: Option<String>,
    pub target: Option<String>,
    pub dry_run: bool,
    pub log_level: Option<String>,
    pub log_format: Option<String>,
    pub verbose: bool,
    pub quiet: bool,
}

/// The arguments of a subcommand that the command line defines, with the
/// values it requires: `stow` with a source and a target, or `unstow`.
pub open spec fn well_formed_args(a: ParsedArgs) -> bool {
    ||| a.subcommand@ == "stow"@ && a.source is Some && a.target is Some
    ||| a.subcommand@ == "unstow"@
}

/// The command that the parsed arguments denote.
pub fn parse_args(matches: ParsedArgs) -> (r: CliCommand)
    requires
        well_formed_args(matches),
    ensures
        matches.subcommand@ == "stow"@ ==> r == (CliCommand::Stow {
            source: matches.source->0,
            target: matches.target->0,
            dry_run: matches.dry_run,
            log_level: matches.log_level,
            log_format: matches.log_format,
            verbose: matches.verbose,
            quiet: matches.quiet,
        }),
        matches.subcommand@ == "unstow"@ ==> r == (CliCommand::Unstow {
            dry_run: matches.dry_run,
            log_level: matches.log_level,
            log_format: matches.log_format,
            verbose: matches.verbose,
            quiet: matches.quiet,
        }),
{
    proof {
        reveal_strlit("stow");
        reveal_strlit("unstow");
        assert("stow"@ != "unstow"@) by {
            assert("stow"@.len() != "unstow"@.len());
        }
    }
    if str_eq(matches.subcommand.as_str(), "stow") {
        match (matches.source, matches.target) {
            (Some(source), Some(target)) => CliCommand::Stow {
                source,
                target,
                dry_run: matches.dry_run,
                log_level: matches.log_level,
                log_format: matches.log_format,
                verbose: matches.verbose,
                quiet: matches.quiet,
            },
            _ => {
                proof {
                    assert(false);
                }
                CliCommand::Unstow {
                    dry_run: matches.dry_run,
                    log_level: matches.log_level,
                    log_format: matches.log_format,
                    verbose: matches.verbose,
                    quiet: matches.quiet,
                }
            },
        }
    } else {
        CliCommand::Unstow {
            dry_run: matches.dry_run,
            log_level: matches.log_level,
            log_format: matches.log_format,
            verbose: matches.verbose,
            quiet: matches.quiet,
        }
    }
}

/// The level that the logging options select: quiet wins, then verbose, then
/// an explicit level, and info by default.
pub open spec fn selected_level(log_level: Option<String>, verbose: bool, quiet: bool) -> Option<Level> {
    if quiet {
        Some(Level::ERROR)
    } else if verbose {
        Some(Level::DEBUG)
    } else {
        match log_level {
            Some(s) => level_named(ascii_lower_seq(s@)),
            None => Some(Level::INFO),
        }
    }
}

/// The format that the logging options select: human by default.
pub open spec fn selected_format(log_format: Option<String>) -> Option<LogFormat> {
    match log_format {
        Some(s) => format_named(ascii_lower_seq(s@)),
        None => Some(LogFormat::Human),
    }
}

/// The logging configuration that the command-line options ask for, or the
/// message of an option that names no level or format.
pub fn create_log_config(
    log_level: &Option<String>,
    log_format: &Option<String>,
    verbose: bool,
    quiet: bool,
) -> (r: Result<LogConfig, String>)
    ensures
        match (selected_level(*log_level, verbose, quiet), selected_format(*log_format)) {
            (Some(l), Some(f)) => r == Ok::<LogConfig, String>(LogConfig { format: f, ..LogConfig::spec_new(l) }),
            _ => true,
        },
        quiet ==> (selected_format(*log_format) matches Some(f) ==> r == Ok::<LogConfig, String>(
            (LogConfig { format: f, ..LogConfig::spec_new(Level::ERROR) }),
        )),
        !quiet && verbose ==> (selected_format(*log_format) matches Some(f) ==> r == Ok::<LogConfig, String>(
            (LogConfig { format: f, ..LogConfig::spec_new(Level::DEBUG) }),
        )),
        selected_level(*log_level, verbose, quiet) is None ==> (r matches Err(m) && m@ == "Invalid log level '"@
            + log_level->0@ + "': Invalid log level: "@ + log_level->0@),
        selected_level(*log_level, verbose, quiet) is Some && selected_format(*log_format) is None ==> (r matches Err(m)
            && m@ == "Invalid log format '"@ + log_format->0@ + "': Invalid log format: "@ + log_format->0@),
{
    let level = if quiet {
        Level::ERROR
    } else if verbose {
        Level::DEBUG
    } else {
        match log_level {
            Some(level_str) => match parse_log_level(level_str.as_str()) {
                Ok(l) => l,
                Err(e) => {
                    let mut m = concat("Invalid log level '", level_str.as_str());
                    m.append("': ");
                    m.append(e.as_str());
                    proof {
                        reveal_strlit("Invalid log level '");
                        reveal_strlit("': ");
                        reveal_strlit("': Invalid log level: ");
                        reveal_strlit("Invalid log level: ");
                        assert(m@ =~= "Invalid log level '"@ + level_str@ + "': Invalid log level: "@ + level_str@);
                    }
                    return Err(m);
                },
            },
            None => Level::INFO,
        }
    };
    let format = match log_format {
        Some(format_str) => match parse_log_format(format_str.as_str()) {
            Ok(f) => f,
            Err(e) => {
                let mut m = concat("Invalid log format '", format_str.as_str());
                m.append("': ");
                m.append(e.as_str());
                proof {
                    reveal_strlit("Invalid log format '");
                    reveal_strlit("': ");
                    reveal_strlit("': Invalid log format: ");
                    reveal_strlit("Invalid log format: ");
                    assert(m@ =~= "Invalid log format '"@ + format_str@ + "': Invalid log format: "@ + format_str@);
                }
                return Err(m);
            },
        },
        None => LogFormat::Human,
    };
    Ok(LogConfig::new(level).with_format(format))
}

/// How the logging options choose a level: quiet means errors only, whatever
/// else is given; otherwise verbose means debug; otherwise an explicit level
/// name is read without regard to case, and the default is info.
pub proof fn lemma_selected_level(log_level: Option<String>, verbose: bool, quiet: bool)
    ensures
        quiet ==> selected_level(log_level, verbose, quiet) == Some(Level::ERROR),
        !quiet && verbose ==> selected_level(log_level, verbose, quiet) == Some(Level::DEBUG),
        !quiet && !verbose && log_level is None ==> selected_level(log_level, verbose, quiet) == Some(Level::INFO),
        !quiet && !verbose ==> (log_level matches Some(s) ==> selected_level(log_level, verbose, quiet)
            == level_named(ascii_lower_seq(s@))),
        selected_level(log_level, verbose, quiet) is None ==> !quiet && !verbose && log_level is Some,
{
}

/// The format is human unless one is named, and a named one is read without
/// regard to case.
pub proof fn lemma_selected_format(log_format: Option<String>)
    ensures
        log_format is None ==> selected_format(log_format) == Some(LogFormat::Human),
        log_format matches Some(s) ==> selected_format(log_format) == format_named(ascii_lower_seq(s@)),
{
}

} // verus!
