use vstd::prelude::*;
use vstd::string::*;

verus! {

/// The commands of the program, each naming the application it acts on.
pub enum Command {
    Validate,
    Launch { application_name: String },
    Show { application_name: String },
    Hide { application_name: String },
    Activate { application_name: String },
    Toggle { application_name: String },
}

/// The parsed command line: a command and the configuration file to read.
pub struct Cli {
    pub command: Command,
    pub config_path: String,
}

/// Why the command line cannot be completed.
pub enum CliError {
    /// No configuration path was given and no default could be determined.
    NoDefaultConfigPath,
}

/// The name of the configuration file within the configuration directory.
pub open spec fn config_file_name() -> Seq<char> {
    seq!['/', 'n', 'i', 'r', 'i', '-', 'a', 'p', 'p', '-', 'h', 'o', 't', 'k', 'e', 'y', '.', 'k', 'd', 'l']
}

/// Relies on directories::ProjectDirs::from_path and ProjectDirs::config_dir:
/// the per-user configuration directory of the `niri` project, when it can be
/// determined (and is valid UTF-8). It depends on the environment, so nothing
/// is stated of it.
#[verifier::external_body]
fn project_config_dir() -> (r: Option<String>) {
    directories::ProjectDirs::from_path(std::path::PathBuf::from("niri")).and_then(
        |d| d.config_dir().to_str().map(String::from),
    )
}

/// The configuration file within the configuration directory `dir`.
pub fn config_path_in(dir: &str) -> (r: String)
    ensures
        r@ == dir@ + config_file_name(),
{
    let mut path = String::from_str(dir);
    let name = "/niri-app-hotkey.kdl";
    proof {
        reveal_strlit("/niri-app-hotkey.kdl");
        assert(name@ =~= config_file_name());
    }
    path.append(name);
    path
}

impl Cli {
    /// The command line with `config_path`, or with the default configuration
    /// file when none was given.
    pub fn new(command: Command, config_path: Option<String>) -> (r: Result<Cli, CliError>)
        ensures
            match config_path {
                Some(p) => r is Ok && r->Ok_0.config_path == p && r->Ok_0.command == command,
                None => match r {
                    Ok(cli) => cli.command == command && exists|dir: Seq<char>|
                        cli.config_path@ == dir + config_file_name(),
                    Err(e) => e is NoDefaultConfigPath,
                },
            },
    {
        match config_path {
            Some(p) => Ok(Cli { command, config_path: p }),
            None => match Self::get_default_config_path() {
                Some(p) => Ok(Cli { command, config_path: p }),
                None => Err(CliError::NoDefaultConfigPath),
            },
        }
    }

    /// The configuration file in the per-user configuration directory, when
    /// that directory can be determined.
    pub fn get_default_config_path() -> (r: Option<String>)
        ensures
            r is Some ==> exists|dir: Seq<char>| r->Some_0@ == dir + config_file_name(),
    {
        match project_config_dir() {
            Some(dir) => {
                let p = config_path_in(dir.as_str());
                assert(p@ == dir@ + config_file_name());
                Some(p)
            },
            None => None,
        }
    }
}

} // verus!
