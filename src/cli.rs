use vstd::prelude::*;
use crate::client_config::Config;

verus! {

/// The command line.
pub struct Cli {
    pub command: Commands,
}

pub enum Commands {
    Auth(AuthArgs),
    /// Point the client at a backend.
    Setup { base_url: String },
    /// Serve editor notifications.
    LanguageServer,
}

pub struct AuthArgs {
    pub command: AuthCommands,
}

pub enum AuthCommands {
    Login { github: bool },
    Logout,
}

/// What a command comes to, given the local configuration.
pub enum Plan {
    /// Run the device flow against the provider, then log in at `base_url`.
    GithubLogin { base_url: String },
    /// Write a configuration for `base_url`.
    Setup { base_url: String },
    /// Serve editor notifications, forwarding them to `base_url` with `token`.
    LanguageServer { base_url: String, token: String },
    /// Nothing to do.
    Nothing,
}

/// Why a command cannot run.
#[derive(Clone, Copy, Debug, PartialEq, Eq, Structural)]
pub enum CliError {
    /// The command needs a session token and the configuration holds none.
    NotAuthenticated,
}

impl Cli {
    /// Decides what the command line asks for. Serving editor notifications
    /// needs a token; everything else can run.
    pub fn plan(self, config: &Config) -> (r: Result<Plan, CliError>)
        ensures
            match self.command {
                Commands::Auth(AuthArgs { command: AuthCommands::Login { github: true } }) =>
                    r matches Ok(Plan::GithubLogin { base_url }) && base_url@ == config.base_url@,
                Commands::Auth(_) => r matches Ok(Plan::Nothing),
                Commands::Setup { base_url: b } => r matches Ok(Plan::Setup { base_url }) && base_url@ == b@,
                Commands::LanguageServer => match config.token {
                    Some(t) => r matches Ok(Plan::LanguageServer { base_url, token })
                        && base_url@ == config.base_url@ && token@ == t@,
                    None => r == Err::<Plan, CliError>(CliError::NotAuthenticated),
                },
            },
    {
        match self.command {
            Commands::Auth(auth) => match auth.command {
                AuthCommands::Login { github } => {
                    if github {
                        Ok(Plan::GithubLogin { base_url: config.base_url.clone() })
                    } else {
                        Ok(Plan::Nothing)
                    }
                },
                AuthCommands::Logout => Ok(Plan::Nothing),
            },
            Commands::Setup { base_url } => Ok(Plan::Setup { base_url }),
            Commands::LanguageServer => match &config.token {
                Some(t) => Ok(Plan::LanguageServer { base_url: config.base_url.clone(), token: t.clone() }),
                None => Err(CliError::NotAuthenticated),
            },
        }
    }
}

} // verus!
