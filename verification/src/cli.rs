use vstd::prelude::*;
use vstd::string::*;

verus! {

/// Switches of the command line that change how the program talks to the outside world.
pub struct AirncConfig {
    /// Whether to disable the link remote service.
    pub service_disable: bool,
}

impl Default for AirncConfig {
    fn default() -> (cfg: Self)
        ensures
            !cfg.service_disable,
    {
        AirncConfig { service_disable: false }
    }
}

/// The command line: the file to share, and the switches.
pub struct Cli {
    /// The path of the file to share.
    pub path: Option<String>,
    pub config: AirncConfig,
}

/// Why the command line cannot be used.
#[derive(Clone, Copy, Debug, PartialEq, Eq, Structural)]
pub enum CliError {
    /// No file path was given.
    MissingPath,
}

impl CliError {
    /// The text shown to the user.
    pub fn message(&self) -> (text: String)
        ensures
            text@ == "🔺 File path can't null..."@,
    {
        match self {
            CliError::MissingPath => String::from_str("🔺 File path can't null..."),
        }
    }
}

/// Accepts a parsed command line when it names a file, and gives it back unchanged.
pub fn check_cli(cli: Cli) -> (r: Result<Cli, CliError>)
    ensures
        cli.path is None ==> r == Err::<Cli, CliError>(CliError::MissingPath),
        cli.path is Some ==> r == Ok::<Cli, CliError>(cli),
{
    if cli.path.is_none() {
        Err(CliError::MissingPath)
    } else {
        Ok(cli)
    }
}

} // verus!
