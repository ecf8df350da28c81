//! The daemon's settings: command-line options, the KDL configuration file, and
//! their merge (command line first, then the file, then built-in defaults).
use vstd::prelude::*;

use crate::text::{chars_of, is_literal, opt_view};

verus! {

/// Operation mode of the rotator.
#[derive(Debug, Clone, Copy, PartialEq, Eq, Structural)]
pub enum Mode {
    /// Listen to Niri compositor events and rotate automatically (default).
    Auto,
    /// Only rotate when a command arrives on the control socket.
    Manual,
}

/// The command-line options. Every option but `config` can also be set in the
/// configuration file.
#[derive(Debug)]
pub struct Cli {
    /// Path to the configuration file (KDL).
    pub config: Option<String>,
    /// Directory containing animation `.kdl` files.
    pub animation_dir: Option<String>,
    /// File that Niri reads via `include`.
    pub animation_target: Option<String>,
    /// Print raw Niri IPC lines to stderr.
    pub log_socket: bool,
    /// Skip `niri msg action reload` after rotating.
    pub no_reload: bool,
    /// Do not rotate on `WindowOpenedOrChanged` events.
    pub no_window_opened: bool,
    /// Do not rotate on `WindowClosed` events.
    pub no_window_closed: bool,
    /// Do not rotate on `WorkspaceActivated` events.
    pub no_workspace_activated: bool,
    /// Extra time in milliseconds on top of an animation's play time.
    pub cooldown_ms: Option<u64>,
    /// Play time for animation files that declare none.
    pub duration_fallback_ms: Option<u64>,
    /// Shuffle the animations on startup and on every rescan.
    pub random_order: bool,
    /// Operation mode.
    pub mode: Option<Mode>,
    /// Unix socket for control commands.
    pub control_socket: Option<String>,
    /// Niri IPC socket (overrides `NIRI_SOCKET`).
    pub niri_socket: Option<String>,
}

/// The configuration file: each node a child with one argument.
#[derive(Debug)]
pub struct KdlConfig {
    pub animation_dir: Option<String>,
    pub animation_target: Option<String>,
    pub log_socket: Option<bool>,
    pub no_reload: Option<bool>,
    pub no_window_opened: Option<bool>,
    pub no_window_closed: Option<bool>,
    pub no_workspace_activated: Option<bool>,
    pub cooldown_ms: Option<u64>,
    pub duration_fallback_ms: Option<u64>,
    pub random_order: Option<bool>,
    pub mode: Option<String>,
    pub control_socket: Option<String>,
    pub niri_socket: Option<String>,
}

impl Default for KdlConfig {
    /// A configuration file that sets nothing.
    fn default() -> (r: Self)
        ensures
            r.animation_dir is None,
            r.animation_target is None,
            r.log_socket is None,
            r.no_reload is None,
            r.no_window_opened is None,
            r.no_window_closed is None,
            r.no_workspace_activated is None,
            r.cooldown_ms is None,
            r.duration_fallback_ms is None,
            r.random_order is None,
            r.mode is None,
            r.control_socket is None,
            r.niri_socket is None,
    {
        KdlConfig {
            animation_dir: None,
            animation_target: None,
            log_socket: None,
            no_reload: None,
            no_window_opened: None,
            no_window_closed: None,
            no_workspace_activated: None,
            cooldown_ms: None,
            duration_fallback_ms: None,
            random_order: None,
            mode: None,
            control_socket: None,
            niri_socket: None,
        }
    }
}

/// The settings after merging command line, configuration file and defaults.
#[derive(Debug, Clone)]
pub struct Config {
    pub animation_dir: String,
    pub animation_target: String,
    pub log_socket: bool,
    pub no_reload: bool,
    pub no_window_opened: bool,
    pub no_window_closed: bool,
    pub no_workspace_activated: bool,
    pub cooldown_ms: u64,
    pub duration_fallback_ms: u64,
    pub random_order: bool,
    pub mode: Mode,
    pub control_socket: String,
    pub niri_socket: String,
}

/// Why the settings could not be resolved.
#[derive(Debug, Clone, Copy, PartialEq, Eq, Structural)]
pub enum ConfigError {
    /// A default path is needed and the user's configuration directory is unknown.
    NoConfigDir,
    /// No Niri socket is given by the command line, the file or the environment.
    NoNiriSocket,
}

/// The play time used for files that declare none, unless set.
pub const DEFAULT_DURATION_FALLBACK_MS: u64 = 500;

/// `path` with `name` appended as a further component, as `PathBuf::push` does
/// for a relative `name`: a `/` goes between unless `path` is empty or ends in one.
pub open spec fn path_join(path: Seq<char>, name: Seq<char>) -> Seq<char> {
    if path.len() == 0 {
        name
    } else if path.last() == '/' {
        path + name
    } else {
        path + seq!['/'] + name
    }
}

/// The program's own directory under the user's configuration directory.
pub open spec fn app_dir(config_dir: Seq<char>) -> Seq<char> {
    path_join(path_join(config_dir, "niri"@), "niri-animation-rotate"@)
}

/// Default path of the configuration file.
pub open spec fn default_config_path_of(config_dir: Seq<char>) -> Seq<char> {
    path_join(app_dir(config_dir), "config.kdl"@)
}

/// Default animation directory.
pub open spec fn default_animation_dir_of(config_dir: Seq<char>) -> Seq<char> {
    path_join(app_dir(config_dir), "animations"@)
}

/// Default target file.
pub open spec fn default_animation_target_of(config_dir: Seq<char>) -> Seq<char> {
    path_join(app_dir(config_dir), "animation.kdl"@)
}

/// Default control socket.
pub open spec fn default_control_socket_of(config_dir: Seq<char>) -> Seq<char> {
    path_join(app_dir(config_dir), "control.sock"@)
}

/// The first of two optional values, else `d`.
pub open spec fn first_of<T>(a: Option<T>, b: Option<T>, d: T) -> T {
    match a {
        Some(x) => x,
        None => match b {
            Some(y) => y,
            None => d,
        },
    }
}

/// A flag set on the command line, or set to `true` in the file.
pub open spec fn flag(cli: bool, file: Option<bool>) -> bool {
    cli || file == Some(true)
}

/// The mode that a configuration file's text names: `auto`/`Auto` or
/// `manual`/`Manual`; anything else names none.
pub open spec fn mode_named(value: Option<Seq<char>>) -> Option<Mode> {
    match value {
        Some(v) => if v == "auto"@ || v == "Auto"@ {
            Some(Mode::Auto)
        } else if v == "manual"@ || v == "Manual"@ {
            Some(Mode::Manual)
        } else {
            None
        },
        None => None,
    }
}

/// Whether some path must come from the defaults (and so needs the configuration
/// directory).
pub open spec fn needs_config_dir(cli: Cli, file: KdlConfig) -> bool {
    ||| cli.animation_dir is None && file.animation_dir is None
    ||| cli.animation_target is None && file.animation_target is None
    ||| cli.control_socket is None && file.control_socket is None
}

/// The Niri socket that the command line, the file or the environment gives, in
/// that order of precedence.
pub open spec fn niri_socket_of(cli: Cli, file: KdlConfig, env: Option<String>) -> Option<
    Seq<char>,
> {
    match opt_view(cli.niri_socket) {
        Some(s) => Some(s),
        None => match opt_view(file.niri_socket) {
            Some(s) => Some(s),
            None => opt_view(env),
        },
    }
}

/// Whether `c` is the merge of `cli`, `file` and the defaults under `config_dir`.
pub open spec fn merged(
    c: Config,
    cli: Cli,
    file: KdlConfig,
    config_dir: Seq<char>,
    niri_socket: Seq<char>,
) -> bool {
    &&& c.animation_dir@ == first_of(
        opt_view(cli.animation_dir),
        opt_view(file.animation_dir),
        default_animation_dir_of(config_dir),
    )
    &&& c.animation_target@ == first_of(
        opt_view(cli.animation_target),
        opt_view(file.animation_target),
        default_animation_target_of(config_dir),
    )
    &&& c.control_socket@ == first_of(
        opt_view(cli.control_socket),
        opt_view(file.control_socket),
        default_control_socket_of(config_dir),
    )
    &&& c.log_socket == flag(cli.log_socket, file.log_socket)
    &&& c.no_reload == flag(cli.no_reload, file.no_reload)
    &&& c.no_window_opened == flag(cli.no_window_opened, file.no_window_opened)
    &&& c.no_window_closed == flag(cli.no_window_closed, file.no_window_closed)
    &&& c.no_workspace_activated == flag(cli.no_workspace_activated, file.no_workspace_activated)
    &&& c.random_order == flag(cli.random_order, file.random_order)
    &&& c.cooldown_ms == first_of(cli.cooldown_ms, file.cooldown_ms, 0)
    &&& c.duration_fallback_ms == first_of(
        cli.duration_fallback_ms,
        file.duration_fallback_ms,
        DEFAULT_DURATION_FALLBACK_MS,
    )
    &&& c.mode == first_of(cli.mode, mode_named(opt_view(file.mode)), Mode::Auto)
    &&& c.niri_socket@ == niri_socket
}

/// `dirs::config_dir`: the user's configuration directory, where the platform has
/// one (on Linux `$XDG_CONFIG_HOME` or `$HOME/.config`), as a string; a directory
/// name that is not UTF-8 is converted lossily (`to_string_lossy`), as paths here
/// are strings. What it is depends on the environment, so nothing is stated of it.
#[verifier::external_body]
fn config_dir() -> (r: Option<String>) {
    dirs::config_dir().map(|p| p.to_string_lossy().into_owned())
}

/// `path` joined with the relative `name`.
pub fn join_path(path: &str, name: &str) -> (r: String)
    ensures
        r@ == path_join(path@, name@),
{
    let pc = chars_of(path);
    let mut r = path.to_owned();
    if pc.len() > 0 && pc[pc.len() - 1] != '/' {
        r.append("/");
        proof {
            reveal_strlit("/");
        }
    }
    r.append(name);
    r
}

/// The program's directory under `config_dir`.
fn app_dir_path(config_dir: &str) -> (r: String)
    ensures
        r@ == app_dir(config_dir@),
{
    let niri = join_path(config_dir, "niri");
    join_path(niri.as_str(), "niri-animation-rotate")
}

/// Default path of the configuration file under `config_dir`.
pub fn default_config_path(config_dir: &str) -> (r: String)
    ensures
        r@ == default_config_path_of(config_dir@),
{
    join_path(app_dir_path(config_dir).as_str(), "config.kdl")
}

/// Default animation directory under `config_dir`.
pub fn default_animation_dir(config_dir: &str) -> (r: String)
    ensures
        r@ == default_animation_dir_of(config_dir@),
{
    join_path(app_dir_path(config_dir).as_str(), "animations")
}

/// Default target file under `config_dir`.
pub fn default_animation_target(config_dir: &str) -> (r: String)
    ensures
        r@ == default_animation_target_of(config_dir@),
{
    join_path(app_dir_path(config_dir).as_str(), "animation.kdl")
}

/// Default control socket under `config_dir`.
pub fn default_control_socket(config_dir: &str) -> (r: String)
    ensures
        r@ == default_control_socket_of(config_dir@),
{
    join_path(app_dir_path(config_dir).as_str(), "control.sock")
}

/// The mode that a configuration file's text names, if any.
pub fn parse_mode_from_kdl(value: Option<&str>) -> (r: Option<Mode>)
    ensures
        r == mode_named(
            match value {
                Some(v) => Some(v@),
                None => None,
            },
        ),
{
    match value {
        None => None,
        Some(v) => {
            if is_literal(v, "auto") || is_literal(v, "Auto") {
                Some(Mode::Auto)
            } else if is_literal(v, "manual") || is_literal(v, "Manual") {
                Some(Mode::Manual)
            } else {
                None
            }
        },
    }
}

/// The first of two optional strings, else the default made by `make`.
fn path_choice(a: Option<String>, b: Option<String>, config_dir: &Option<String>, which: u8) -> (r:
    String)
    requires
        a is None && b is None ==> config_dir is Some,
        which < 3,
    ensures
        r@ == first_of(
            opt_view(a),
            opt_view(b),
            match config_dir {
                Some(d) => if which == 0 {
                    default_animation_dir_of(d@)
                } else if which == 1 {
                    default_animation_target_of(d@)
                } else {
                    default_control_socket_of(d@)
                },
                None => Seq::empty(),
            },
        ),
{
    match a {
        Some(x) => x,
        None => match b {
            Some(y) => y,
            None => {
                let d = match config_dir {
                    Some(d) => d.as_str(),
                    None => "",
                };
                if which == 0 {
                    default_animation_dir(d)
                } else if which == 1 {
                    default_animation_target(d)
                } else {
                    default_control_socket(d)
                }
            },
        },
    }
}

impl Cli {
    /// The configuration file to read: the one given, else the default under the
    /// user's configuration directory; `None` when that directory is unknown.
    pub fn config_path(&self) -> (r: Option<String>)
        ensures
            self.config is Some ==> r == self.config,
            self.config is None ==> (r matches Some(p) ==> exists|d: Seq<char>|
                p@ == default_config_path_of(d)),
    {
        match &self.config {
            Some(p) => Some(p.clone()),
            None => match config_dir() {
                Some(d) => Some(default_config_path(d.as_str())),
                None => None,
            },
        }
    }
}

impl Config {
    /// Merges the command line, the configuration file and the defaults under
    /// `config_dir`; `env_niri_socket` is the value of `NIRI_SOCKET`.
    ///
    /// Paths and values: the command line wins, then the file, then the default.
    /// Flags: on when the command line sets them or the file sets them to `true`.
    /// Fails when no Niri socket is given anywhere.
    pub fn resolve(
        cli: Cli,
        file: KdlConfig,
        config_dir: Option<String>,
        env_niri_socket: Option<String>,
    ) -> (r: Result<Config, ConfigError>)
        requires
            needs_config_dir(cli, file) ==> config_dir is Some,
        ensures
            match niri_socket_of(cli, file, env_niri_socket) {
                Some(s) => r matches Ok(c) && merged(
                    c,
                    cli,
                    file,
                    match config_dir {
                        Some(d) => d@,
                        None => Seq::empty(),
                    },
                    s,
                ),
                None => r == Err::<Config, ConfigError>(ConfigError::NoNiriSocket),
            },
    {
        let animation_dir = path_choice(
            cli.animation_dir.clone(),
            file.animation_dir.clone(),
            &config_dir,
            0,
        );
        let animation_target = path_choice(
            cli.animation_target.clone(),
            file.animation_target.clone(),
            &config_dir,
            1,
        );
        let control_socket = path_choice(
            cli.control_socket.clone(),
            file.control_socket.clone(),
            &config_dir,
            2,
        );
        let log_socket = cli.log_socket || file.log_socket == Some(true);
        let no_reload = cli.no_reload || file.no_reload == Some(true);
        let no_window_opened = cli.no_window_opened || file.no_window_opened == Some(true);
        let no_window_closed = cli.no_window_closed || file.no_window_closed == Some(true);
        let no_workspace_activated = cli.no_workspace_activated || file.no_workspace_activated
            == Some(true);
        let random_order = cli.random_order || file.random_order == Some(true);
        let cooldown_ms = match cli.cooldown_ms {
            Some(v) => v,
            None => match file.cooldown_ms {
                Some(v) => v,
                None => 0,
            },
        };
        let duration_fallback_ms = match cli.duration_fallback_ms {
            Some(v) => v,
            None => match file.duration_fallback_ms {
                Some(v) => v,
                None => DEFAULT_DURATION_FALLBACK_MS,
            },
        };
        let mode = match cli.mode {
            Some(m) => m,
            None => match parse_mode_from_kdl(
                match &file.mode {
                    Some(s) => Some(s.as_str()),
                    None => None,
                },
            ) {
                Some(m) => m,
                None => Mode::Auto,
            },
        };
        let niri_socket = match cli.niri_socket {
            Some(s) => s,
            None => match file.niri_socket {
                Some(s) => s,
                None => match env_niri_socket {
                    Some(s) => s,
                    None => {
                        return Err(ConfigError::NoNiriSocket);
                    },
                },
            },
        };
        Ok(
            Config {
                animation_dir,
                animation_target,
                log_socket,
                no_reload,
                no_window_opened,
                no_window_closed,
                no_workspace_activated,
                cooldown_ms,
                duration_fallback_ms,
                random_order,
                mode,
                control_socket,
                niri_socket,
            },
        )
    }

    /// Merges the command line and the configuration file with the defaults under
    /// the user's configuration directory; `env_niri_socket` is the value of
    /// `NIRI_SOCKET`.
    ///
    /// Fails with `NoConfigDir` when a default path is needed and that directory is
    /// unknown, else as `resolve` does.
    pub fn load(cli: Cli, file: KdlConfig, env_niri_socket: Option<String>) -> (r: Result<
        Config,
        ConfigError,
    >)
        ensures
            r == Err::<Config, ConfigError>(ConfigError::NoConfigDir) ==> needs_config_dir(
                cli,
                file,
            ),
            r matches Ok(c) ==> exists|d: Seq<char>|
                #![trigger default_animation_dir_of(d)]
                merged(c, cli, file, d, niri_socket_of(cli, file, env_niri_socket)->0),
            !needs_config_dir(cli, file) ==> match niri_socket_of(cli, file, env_niri_socket) {
                Some(s) => r matches Ok(c) && merged(c, cli, file, Seq::empty(), s),
                None => r == Err::<Config, ConfigError>(ConfigError::NoNiriSocket),
            },
            niri_socket_of(cli, file, env_niri_socket) is None ==> r is Err,
    {
        let dir = if needs_config_dir_exec(&cli, &file) {
            match config_dir() {
                Some(d) => Some(d),
                None => {
                    return Err(ConfigError::NoConfigDir);
                },
            }
        } else {
            None
        };
        let ghost dview: Seq<char> = match opt_view(dir) {
            Some(d) => d,
            None => Seq::empty(),
        };
        let r = Self::resolve(cli, file, dir, env_niri_socket);
        assert(default_animation_dir_of(dview) == default_animation_dir_of(dview));
        r
    }
}

/// Whether some path must come from the defaults.
fn needs_config_dir_exec(cli: &Cli, file: &KdlConfig) -> (r: bool)
    ensures
        r == needs_config_dir(*cli, *file),
{
    (cli.animation_dir.is_none() && file.animation_dir.is_none()) || (cli.animation_target.is_none()
        && file.animation_target.is_none()) || (cli.control_socket.is_none()
        && file.control_socket.is_none())
}

impl ConfigError {
    /// The message that reports the error.
    pub fn message(&self) -> (r: String)
        ensures
            *self == ConfigError::NoConfigDir ==> r@
                == "Could not determine config directory"@,
            *self == ConfigError::NoNiriSocket ==> r@
                == "NIRI_SOCKET environment variable not set. Are you running inside a Niri session?"@,
    {
        match self {
            ConfigError::NoConfigDir => "Could not determine config directory".to_owned(),
            ConfigError::NoNiriSocket =>
                "NIRI_SOCKET environment variable not set. Are you running inside a Niri session?".to_owned(),
        }
    }
}

} // verus!

verus! {

/// Precedence of the merge: a value given on the command line wins over the file
/// and the default; a value only in the file wins over the default; a flag given on
/// the command line is on whatever the file says, and the file can only switch a
/// flag on.
pub proof fn lemma_precedence(
    c: Config,
    cli: Cli,
    file: KdlConfig,
    config_dir: Seq<char>,
    niri_socket: Seq<char>,
)
    requires
        merged(c, cli, file, config_dir, niri_socket),
    ensures
        cli.animation_dir matches Some(p) ==> c.animation_dir@ == p@,
        cli.animation_dir is None ==> (file.animation_dir matches Some(p) ==> c.animation_dir@
            == p@),
        cli.animation_dir is None && file.animation_dir is None ==> c.animation_dir@
            == default_animation_dir_of(config_dir),
        cli.cooldown_ms matches Some(v) ==> c.cooldown_ms == v,
        cli.cooldown_ms is None && file.cooldown_ms is None ==> c.cooldown_ms == 0,
        cli.duration_fallback_ms is None && file.duration_fallback_ms is None
            ==> c.duration_fallback_ms == DEFAULT_DURATION_FALLBACK_MS,
        cli.mode matches Some(m) ==> c.mode == m,
        cli.mode is None && mode_named(opt_view(file.mode)) is None ==> c.mode == Mode::Auto,
        cli.no_reload ==> c.no_reload,
        !cli.no_reload ==> (c.no_reload <==> file.no_reload == Some(true)),
        cli.random_order ==> c.random_order,
        !cli.random_order ==> (c.random_order <==> file.random_order == Some(true)),
        cli.animation_target matches Some(p) ==> c.animation_target@ == p@,
        cli.animation_target is None ==> (file.animation_target matches Some(p)
            ==> c.animation_target@ == p@),
        cli.animation_target is None && file.animation_target is None ==> c.animation_target@
            == default_animation_target_of(config_dir),
        cli.control_socket matches Some(p) ==> c.control_socket@ == p@,
        cli.control_socket is None ==> (file.control_socket matches Some(p) ==> c.control_socket@
            == p@),
        cli.control_socket is None && file.control_socket is None ==> c.control_socket@
            == default_control_socket_of(config_dir),
        cli.cooldown_ms is None ==> (file.cooldown_ms matches Some(v) ==> c.cooldown_ms == v),
        cli.duration_fallback_ms matches Some(v) ==> c.duration_fallback_ms == v,
        cli.duration_fallback_ms is None ==> (file.duration_fallback_ms matches Some(v)
            ==> c.duration_fallback_ms == v),
        cli.mode is None ==> (mode_named(opt_view(file.mode)) matches Some(m) ==> c.mode == m),
        c.log_socket <==> (cli.log_socket || file.log_socket == Some(true)),
        c.no_window_opened <==> (cli.no_window_opened || file.no_window_opened == Some(true)),
        c.no_window_closed <==> (cli.no_window_closed || file.no_window_closed == Some(true)),
        c.no_workspace_activated <==> (cli.no_workspace_activated || file.no_workspace_activated
            == Some(true)),
        c.niri_socket@ == niri_socket,
{
}

/// Where the Niri socket comes from: the command line wins, then the configuration
/// file, then `NIRI_SOCKET`; a merged configuration holds that socket.
pub proof fn lemma_niri_socket_precedence(
    c: Config,
    cli: Cli,
    file: KdlConfig,
    config_dir: Seq<char>,
    env: Option<String>,
)
    ensures
        cli.niri_socket matches Some(p) ==> niri_socket_of(cli, file, env) == Some(p@),
        cli.niri_socket is None ==> (file.niri_socket matches Some(p) ==> niri_socket_of(
            cli,
            file,
            env,
        ) == Some(p@)),
        cli.niri_socket is None && file.niri_socket is None ==> niri_socket_of(cli, file, env)
            == opt_view(env),
        niri_socket_of(cli, file, env) is None <==> (cli.niri_socket is None && file.niri_socket is None
            && env is None),
        merged(c, cli, file, config_dir, niri_socket_of(cli, file, env)->0) ==> {
            &&& cli.niri_socket matches Some(p) ==> c.niri_socket@ == p@
            &&& cli.niri_socket is None ==> (file.niri_socket matches Some(p) ==> c.niri_socket@ == p@)
            &&& cli.niri_socket is None && file.niri_socket is None ==> (env matches Some(p)
                ==> c.niri_socket@ == p@)
        },
{
}

} // verus!
