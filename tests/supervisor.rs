use lyrebird::runner::{
    classify_line, restart_line, supervise, Config, ConfigError, LineAction, Profile,
    SupervisorAction, WorkerEvent,
};

fn line(s: &str) -> WorkerEvent {
    WorkerEvent::Line { text: s.to_string() }
}

#[test]
fn supervisor_lines_scenario() {
    let mut forwarded = Vec::new();
    let mut relaunch = None;
    for l in ["hello", "!restart,path=/tmp/x", "world"] {
        match supervise(line(l)) {
            SupervisorAction::Forward { text } => forwarded.push(text),
            SupervisorAction::Relaunch { recover_path } => {
                relaunch = Some(recover_path);
                break;
            }
            SupervisorAction::Exit => break,
        }
    }
    assert_eq!(forwarded, vec!["hello".to_string()]);
    assert_eq!(relaunch, Some("/tmp/x".to_string()));
    assert_eq!(supervise(WorkerEvent::Eof), SupervisorAction::Exit);
}

#[test]
fn classify_prefix_edges() {
    assert_eq!(classify_line("!restart,path="), LineAction::Restart { path: String::new() });
    assert_eq!(classify_line("!restart,path"), LineAction::Forward);
    assert_eq!(classify_line(" !restart,path=/a"), LineAction::Forward);
    assert_eq!(classify_line(""), LineAction::Forward);
    assert_eq!(
        classify_line("!restart,path=/tmp/é ü"),
        LineAction::Restart { path: "/tmp/é ü".to_string() }
    );
}

#[test]
fn restart_line_reads_back() {
    let l = restart_line("/tmp/.tmpAbC");
    assert_eq!(l, "!restart,path=/tmp/.tmpAbC");
    assert_eq!(classify_line(&l), LineAction::Restart { path: "/tmp/.tmpAbC".to_string() });
}

fn config(mode: &str, path: Option<&str>) -> Config {
    Config {
        mode: mode.to_string(),
        owner_id: 4207,
        debug: Some(Profile { token: "dtok".to_string(), binary_path: path.map(|p| p.to_string()) }),
        release: None,
    }
}

#[test]
fn config_profiles_and_paths() {
    let c = config("debug", None);
    assert_eq!(c.profile().unwrap().token, "dtok");
    assert_eq!(c.path(), Ok("./target/debug/lyrebird".to_string()));
    let c = config("debug", Some("/bin/bot"));
    assert_eq!(c.path(), Ok("/bin/bot".to_string()));
    let c = config("release", None);
    assert_eq!(c.profile().err(), Some(ConfigError::MissingProfile));
    assert_eq!(c.path(), Err(ConfigError::MissingProfile));
    let c = config("fast", None);
    assert_eq!(c.profile().err(), Some(ConfigError::InvalidMode));
}

#[test]
fn launch_environment() {
    let c = config("debug", None);
    let l = c.mk_command(None).unwrap();
    assert_eq!(l.program, "./target/debug/lyrebird");
    assert_eq!(
        l.env,
        vec![
            ("DISCORD_TOKEN".to_string(), "dtok".to_string()),
            ("BOT_OWNER_ID".to_string(), "4207".to_string()),
            ("IS_RUN_BY_RUNNER".to_string(), "1".to_string()),
        ]
    );
    let p = "/tmp/x".to_string();
    let l = c.mk_command(Some(&p)).unwrap();
    assert_eq!(l.env.len(), 4);
    assert_eq!(l.env[3], ("RESTART_RECOVER_PATH".to_string(), "/tmp/x".to_string()));
    assert_eq!(config("x", None).mk_command(None), Err(ConfigError::InvalidMode));
}
