//! The configuration of one run, as the command line gave it.

use vstd::prelude::*;

verus! {

/// The token that separates argument groups on the command line.
pub const COMMANDS_FROM_ARGS_SEPARATOR: &'static str = ":::";

/// The effective options of a run. They are fixed before any input is read.
#[derive(Debug)]
pub struct CommandLineArgs {
    /// Take the commands from the command line arguments, not from inputs.
    pub commands_from_args: bool,
    /// The inputs to read, in order; `-` is standard input, and so is an
    /// empty list.
    pub input: Vec<String>,
    /// How many commands may run at the same time.
    pub jobs: usize,
    /// Input units end at a NUL byte, not at a newline.
    pub null_separator: bool,
    /// The capture pattern that input lines are matched against.
    pub regex: Option<String>,
    /// Run each command through the shell.
    pub shell: bool,
    /// How many seconds a command may run; `None` is no limit.
    pub timeout_seconds: Option<u64>,
    /// The shell that runs commands in shell mode.
    pub shell_path: String,
    /// The command and its first arguments, or, with `commands_from_args`,
    /// the command and the argument groups.
    pub command_and_initial_arguments: Vec<String>,
}

/// Why a configuration cannot be run.
#[derive(Debug, Clone, Copy, PartialEq, Eq, Structural)]
pub enum ConfigurationError {
    /// The concurrency limit is zero.
    ZeroJobs,
    /// The timeout is zero seconds.
    ZeroTimeout,
}

/// The byte that ends an input unit: NUL if asked for, else a newline.
pub open spec fn separator_byte(null_separator: bool) -> u8 {
    if null_separator {
        0u8
    } else {
        10u8
    }
}

impl CommandLineArgs {
    /// The limits are usable: at least one job, and no timeout of zero.
    pub open spec fn limits_valid(&self) -> bool {
        self.jobs > 0 && self.timeout_seconds != Some(0u64)
    }

    /// Accepts the configuration unless the concurrency limit or the timeout
    /// is zero; of the two complaints the one about the jobs comes first.
    pub fn validate(&self) -> (result: Result<(), ConfigurationError>)
        ensures
            result is Ok <==> self.limits_valid(),
            result == Err::<(), ConfigurationError>(ConfigurationError::ZeroJobs) <==> self.jobs
                == 0,
            result == Err::<(), ConfigurationError>(ConfigurationError::ZeroTimeout) <==> self.jobs
                > 0 && self.timeout_seconds == Some(0u64),
    {
        if self.jobs == 0 {
            return Err(ConfigurationError::ZeroJobs);
        }
        match self.timeout_seconds {
            Some(seconds) => {
                if seconds == 0 {
                    return Err(ConfigurationError::ZeroTimeout);
                }
            },
            None => {},
        }
        Ok(())
    }

    /// The byte that ends an input unit: NUL with `null_separator`, else a
    /// newline.
    pub fn line_separator(&self) -> (separator: u8)
        ensures
            separator == separator_byte(self.null_separator),
    {
        if self.null_separator {
            0u8
        } else {
            10u8
        }
    }
}

impl Default for CommandLineArgs {
    /// One job, no timeout, no shell, newline-separated standard input, no
    /// capture pattern and no command.
    fn default() -> (args: Self)
        ensures
            !args.commands_from_args,
            args.input@.len() == 0,
            args.jobs == 1,
            !args.null_separator,
            args.regex is None,
            !args.shell,
            args.timeout_seconds is None,
            args.shell_path@ == "/bin/bash"@,
            args.command_and_initial_arguments@.len() == 0,
            args.limits_valid(),
    {
        Self {
            commands_from_args: false,
            input: Vec::new(),
            jobs: 1,
            null_separator: false,
            regex: None,
            shell: false,
            timeout_seconds: None,
            shell_path: "/bin/bash".to_owned(),
            command_and_initial_arguments: Vec::new(),
        }
    }
}

} // verus!
