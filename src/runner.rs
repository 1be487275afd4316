use vstd::prelude::*;

use crate::text::{chars_of, decimal, digits, push_str};

verus! {

/// The start of the line by which a worker asks to be restarted; the rest of
/// the line is the path of its transfer file.
pub open spec fn restart_prefix() -> Seq<char> {
    "!restart,path="@
}

/// What the supervisor does with one line of the worker's output.
#[derive(Clone, Debug, PartialEq, Eq)]
pub enum LineAction {
    /// Print it as it is.
    Forward,
    /// Stop the worker and start it again, recovering from this file.
    Restart { path: String },
}

pub open spec fn line_action_spec(line: Seq<char>) -> Option<Seq<char>> {
    let n = restart_prefix().len();
    if line.len() >= n && line.take(n as int) == restart_prefix() {
        Some(line.skip(n as int))
    } else {
        None
    }
}

/// Reads one line of the worker's output.
pub fn classify_line(line: &str) -> (r: LineAction)
    ensures
        line_action_spec(line@) is None <==> r == LineAction::Forward,
        r matches LineAction::Restart { path } ==> Some(path@) == line_action_spec(line@),
{
    proof {
        reveal_strlit("!restart,path=");
    }
    let prefix = chars_of("!restart,path=");
    let cs = chars_of(line);
    let n = prefix.len();
    if cs.len() < n {
        return LineAction::Forward;
    }
    let mut k: usize = 0;
    while k < n
        invariant
            prefix@ == restart_prefix(),
            n == prefix@.len(),
            cs@ == line@,
            n <= cs@.len(),
            k <= n,
            forall|m: int| 0 <= m < k ==> cs@[m] == prefix@[m],
        decreases n - k,
    {
        if cs[k] != prefix[k] {
            assert(line@.take(n as int)[k as int] != restart_prefix()[k as int]);
            return LineAction::Forward;
        }
        k = k + 1;
    }
    assert(line@.take(n as int) =~= restart_prefix());
    let len = line.unicode_len();
    let path = String::from_str(line.substring_char(n, len));
    LineAction::Restart { path }
}

/// The line by which a worker asks to be restarted from the file at `path`.
pub fn restart_line(path: &str) -> (r: String)
    ensures
        r@ == restart_prefix() + path@,
{
    let mut out = String::from_str("!restart,path=");
    push_str(&mut out, path);
    out
}

/// The restart line of any path reads back as a request to restart from that
/// path.
pub proof fn lemma_restart_line(path: Seq<char>)
    ensures
        line_action_spec(restart_prefix() + path) == Some(path),
{
    let line = restart_prefix() + path;
    assert(line.take(restart_prefix().len() as int) =~= restart_prefix());
    assert(line.skip(restart_prefix().len() as int) =~= path);
}

/// What happened to the worker.
#[derive(Clone, Debug, PartialEq, Eq)]
pub enum WorkerEvent {
    /// It printed this line.
    Line { text: String },
    /// Its output ended.
    Eof,
}

/// What the supervisor does next.
#[derive(Clone, Debug, PartialEq, Eq)]
pub enum SupervisorAction {
    /// Print this line.
    Forward { text: String },
    /// Stop the worker and launch it again, recovering from this file.
    Relaunch { recover_path: String },
    /// The worker ended by itself: stop supervising.
    Exit,
}

/// The supervisor's decision on one event from the worker.
pub fn supervise(ev: WorkerEvent) -> (r: SupervisorAction)
    ensures
        ev == WorkerEvent::Eof ==> r == SupervisorAction::Exit,
        ev matches WorkerEvent::Line { text } ==> (line_action_spec(text@) is None ==> r == (
        SupervisorAction::Forward { text })),
        ev matches WorkerEvent::Line { text } ==> (line_action_spec(text@) matches Some(p) ==> (
        r matches SupervisorAction::Relaunch { recover_path } && recover_path@ == p)),
{
    match ev {
        WorkerEvent::Eof => SupervisorAction::Exit,
        WorkerEvent::Line { text } => match classify_line(text.as_str()) {
            LineAction::Forward => SupervisorAction::Forward { text },
            LineAction::Restart { path } => SupervisorAction::Relaunch { recover_path: path },
        },
    }
}

/// One way of running the worker.
#[derive(Clone, Debug, PartialEq, Eq)]
pub struct Profile {
    pub token: String,
    pub binary_path: Option<String>,
}

/// The supervisor's configuration.
#[derive(Clone, Debug, PartialEq, Eq)]
pub struct Config {
    /// `debug` or `release`: which profile is used.
    pub mode: String,
    pub owner_id: u64,
    pub debug: Option<Profile>,
    pub release: Option<Profile>,
}

/// What is wrong with a configuration.
#[derive(Clone, Copy, Debug, PartialEq, Eq)]
pub enum ConfigError {
    /// The mode is neither `debug` nor `release`.
    InvalidMode,
    /// The mode names a profile that is not there.
    MissingProfile,
}

/// The program to start and its environment.
#[derive(Clone, Debug, PartialEq, Eq)]
pub struct LaunchSpec {
    pub program: String,
    pub env: Vec<(String, String)>,
}

impl Config {
    pub open spec fn profile_spec(&self) -> Result<Profile, ConfigError> {
        if self.mode@ == "debug"@ {
            match self.debug {
                Some(p) => Ok(p),
                None => Err(ConfigError::MissingProfile),
            }
        } else if self.mode@ == "release"@ {
            match self.release {
                Some(p) => Ok(p),
                None => Err(ConfigError::MissingProfile),
            }
        } else {
            Err(ConfigError::InvalidMode)
        }
    }

    pub open spec fn path_spec(&self) -> Result<Seq<char>, ConfigError> {
        match self.profile_spec() {
            Err(e) => Err(e),
            Ok(p) => match p.binary_path {
                Some(b) => Ok(b@),
                None => Ok("./target/"@ + self.mode@ + "/lyrebird"@),
            },
        }
    }

    /// The profile that the mode selects.
    pub fn profile(&self) -> (r: Result<&Profile, ConfigError>)
        ensures
            match self.profile_spec() {
                Ok(p) => r matches Ok(q) && *q == p,
                Err(e) => r == Err::<&Profile, ConfigError>(e),
            },
    {
        proof {
            reveal_strlit("debug");
            reveal_strlit("release");
            assert("debug"@.len() != "release"@.len());
        }
        if self.mode == String::from_str("debug") {
            match &self.debug {
                Some(p) => Ok(p),
                None => Err(ConfigError::MissingProfile),
            }
        } else if self.mode == String::from_str("release") {
            match &self.release {
                Some(p) => Ok(p),
                None => Err(ConfigError::MissingProfile),
            }
        } else {
            Err(ConfigError::InvalidMode)
        }
    }

    /// Where the worker program is: the profile's own path, or the build
    /// directory of the mode.
    pub fn path(&self) -> (r: Result<String, ConfigError>)
        ensures
            match self.path_spec() {
                Ok(p) => r matches Ok(s) && s@ == p,
                Err(e) => r == Err::<String, ConfigError>(e),
            },
    {
        let p = self.profile()?;
        match &p.binary_path {
            Some(b) => Ok(b.clone()),
            None => {
                let mut out = String::from_str("./target/");
                push_str(&mut out, self.mode.as_str());
                push_str(&mut out, "/lyrebird");
                Ok(out)
            },
        }
    }

    /// How to launch the worker: its program, and an environment with the
    /// token, the owner, the mark that it runs supervised and, after a
    /// restart, the file to recover from.
    pub fn mk_command(&self, recover_path: Option<&String>) -> (r: Result<LaunchSpec, ConfigError>)
        ensures
            r is Err <==> self.path_spec() is Err,
            r is Err ==> r == Err::<LaunchSpec, ConfigError>(self.path_spec()->Err_0),
            r matches Ok(l) ==> l.program@ == self.path_spec()->Ok_0 && l.env@.len() == (
            if recover_path is Some {
                4int
            } else {
                3int
            }) && l.env@[0].0@ == "DISCORD_TOKEN"@ && l.env@[0].1@ == self.profile_spec()->Ok_0.token@
                && l.env@[1].0@ == "BOT_OWNER_ID"@ && l.env@[1].1@ == digits(self.owner_id as nat)
                && l.env@[2].0@ == "IS_RUN_BY_RUNNER"@ && l.env@[2].1@ == "1"@ && (
            recover_path matches Some(p) ==> l.env@[3].0@ == "RESTART_RECOVER_PATH"@ && l.env@[3].1@
                == p@),
    {
        let program = self.path()?;
        let p = self.profile()?;
        let mut env: Vec<(String, String)> = Vec::new();
        env.push((String::from_str("DISCORD_TOKEN"), p.token.clone()));
        env.push((String::from_str("BOT_OWNER_ID"), decimal(self.owner_id)));
        env.push((String::from_str("IS_RUN_BY_RUNNER"), String::from_str("1")));
        match recover_path {
            Some(path) => env.push((String::from_str("RESTART_RECOVER_PATH"), path.clone())),
            None => {},
        }
        Ok(LaunchSpec { program, env })
    }
}

} // verus!
