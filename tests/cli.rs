use cairos::cli::{AuthArgs, AuthCommands, Cli, CliError, Commands, Plan};
use cairos::client_config::Config;
use cairos::clients::{capture_outcome, Error as ClientError};

#[test]
fn language_server_needs_token() {
    let config = Config::initial();
    assert_eq!(config.base_url, "https://localhost");
    let r = Cli { command: Commands::LanguageServer }.plan(&config);
    assert!(matches!(r, Err(CliError::NotAuthenticated)));
    let config = config.with_token("tok".to_string());
    let r = Cli { command: Commands::LanguageServer }.plan(&config);
    assert!(matches!(r, Ok(Plan::LanguageServer { ref base_url, ref token }) if base_url == "https://localhost" && token == "tok"));
}

#[test]
fn login_and_setup_plans() {
    let config = Config::for_backend("https://api.example".to_string());
    assert_eq!(config.token, None);
    let login = Cli { command: Commands::Auth(AuthArgs { command: AuthCommands::Login { github: true } }) }.plan(&config);
    assert!(matches!(login, Ok(Plan::GithubLogin { ref base_url }) if base_url == "https://api.example"));
    let plain = Cli { command: Commands::Auth(AuthArgs { command: AuthCommands::Login { github: false } }) }.plan(&config);
    assert!(matches!(plain, Ok(Plan::Nothing)));
    let logout = Cli { command: Commands::Auth(AuthArgs { command: AuthCommands::Logout }) }.plan(&config);
    assert!(matches!(logout, Ok(Plan::Nothing)));
    let setup = Cli { command: Commands::Setup { base_url: "http://x".to_string() } }.plan(&config);
    assert!(matches!(setup, Ok(Plan::Setup { ref base_url }) if base_url == "http://x"));
}

#[test]
fn capture_status_decides_outcome() {
    assert!(capture_outcome(200, String::new()).is_ok());
    match capture_outcome(401, "denied".to_string()) {
        Err(ClientError::Request(Some(401), body)) => assert_eq!(body, "denied"),
        other => panic!("unexpected {other:?}"),
    }
}
