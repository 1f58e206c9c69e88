//! How a sandbox is set up.
use vstd::prelude::*;
use vstd::string::*;

use crate::message::{copy_option_text, option_text};
use crate::sandbox::host::{BuiltSandbox, DockerSandbox, NoSandbox};
use crate::text::{ascii_lowercase_text, is_blank, str_eq, to_ascii_lowercase, trim, trimmed};

verus! {

broadcast use vstd::string::group_string_axioms;

pub const DEFAULT_CONTAINER_DIR: &'static str = "/workspace";

pub const DEFAULT_IMAGE: &'static str = "mcr.microsoft.com/devcontainers/base:bookworm";

pub const DEFAULT_CONTAINER_NAME: &'static str = "remi-cat-sandbox";

/// Where commands run when nothing else is said.
#[derive(Debug, Clone, Copy, PartialEq, Eq, Structural)]
pub enum BashMode {
    Local,
    Docker,
}

/// An error of a sandbox: what was being done, and what stopped it where that
/// came from elsewhere.
#[derive(Debug, Clone, PartialEq, Eq)]
pub struct SandboxError {
    pub message: String,
    pub cause: Option<String>,
}

pub struct SandboxErrorView {
    pub message: Seq<char>,
    pub cause: Option<Seq<char>>,
}

impl View for SandboxError {
    type V = SandboxErrorView;

    open spec fn view(&self) -> SandboxErrorView {
        SandboxErrorView { message: self.message@, cause: option_text(self.cause) }
    }
}

pub open spec fn plain_error(message: Seq<char>) -> SandboxErrorView {
    SandboxErrorView { message, cause: None }
}

impl SandboxError {
    pub fn plain(message: &str) -> (r: SandboxError)
        ensures
            r@ == plain_error(message@),
    {
        SandboxError { message: message.to_owned(), cause: None }
    }

    pub fn caused(message: &str, cause: String) -> (r: SandboxError)
        ensures
            r@ == (SandboxErrorView { message: message@, cause: Some(cause@) }),
    {
        SandboxError { message: message.to_owned(), cause: Some(cause) }
    }
}

/// What the environment says of the sandbox.
#[derive(Debug)]
pub struct SandboxSettings {
    /// `REMI_SANDBOX_KIND`.
    pub kind: Option<String>,
    /// `REMI_SANDBOX_HOST_DIR`.
    pub host_dir: Option<String>,
    /// `REMI_SANDBOX_CONTAINER_DIR`.
    pub container_dir: Option<String>,
    /// `REMI_SANDBOX_IMAGE`.
    pub image: Option<String>,
    /// `REMI_SANDBOX_CONTAINER_NAME`.
    pub container_name: Option<String>,
    /// `REMI_SANDBOX_USER`.
    pub user: Option<String>,
    /// The user and the group of this process.
    pub host_user: Option<String>,
}

/// A sandbox in a container.
#[derive(Debug, Clone, PartialEq, Eq)]
pub struct DockerSandboxConfig {
    pub host_dir: String,
    pub container_dir: String,
    pub image: String,
    pub container_name: String,
    pub user: Option<String>,
}

pub struct DockerView {
    pub host_dir: Seq<char>,
    pub container_dir: Seq<char>,
    pub image: Seq<char>,
    pub container_name: Seq<char>,
    pub user: Option<Seq<char>>,
}

impl View for DockerSandboxConfig {
    type V = DockerView;

    open spec fn view(&self) -> DockerView {
        DockerView {
            host_dir: self.host_dir@,
            container_dir: self.container_dir@,
            image: self.image@,
            container_name: self.container_name@,
            user: option_text(self.user),
        }
    }
}

/// A text that is set, or another.
pub open spec fn set_or(value: Option<String>, other: Seq<char>) -> Seq<char> {
    match value {
        Some(v) => v@,
        None => other,
    }
}

fn set_text(value: &Option<String>, other: &str) -> (r: String)
    ensures
        r@ == set_or(*value, other@),
{
    match value {
        Some(v) => v.clone(),
        None => other.to_owned(),
    }
}

/// The user that a container runs as: the one that is set, else this process's.
pub open spec fn container_user(env: SandboxSettings) -> Option<Seq<char>> {
    match env.user {
        Some(u) if trimmed(u@).len() > 0 => Some(u@),
        _ => option_text(env.host_user),
    }
}

/// The user and the group of a process, from what `id -u` and `id -g` printed.
pub open spec fn user_spec(uid: Option<Seq<char>>, gid: Option<Seq<char>>) -> Option<Seq<char>> {
    match (uid, gid) {
        (Some(u), Some(g)) if trimmed(u).len() > 0 && trimmed(g).len() > 0 => Some(
            trimmed(u) + ":"@ + trimmed(g),
        ),
        _ => None,
    }
}

/// The user and the group of a process, from what `id -u` and `id -g` printed.
pub fn current_host_user_spec(uid: &Option<String>, gid: &Option<String>) -> (r: Option<String>)
    ensures
        option_text(r) == user_spec(option_text(*uid), option_text(*gid)),
{
    match (uid, gid) {
        (Some(u), Some(g)) => {
            let u = trim(u);
            let g = trim(g);
            if u.unicode_len() == 0 || g.unicode_len() == 0 {
                return None;
            }
            let mut spec = u;
            spec.push_str(":");
            spec.push_str(&g);
            Some(spec)
        },
        _ => None,
    }
}

impl DockerSandboxConfig {
    /// The container that the environment describes.
    pub fn from_env(host_dir: String, env: &SandboxSettings) -> (r: DockerSandboxConfig)
        ensures
            r@ == (DockerView {
                host_dir: host_dir@,
                container_dir: set_or(env.container_dir, DEFAULT_CONTAINER_DIR@),
                image: set_or(env.image, DEFAULT_IMAGE@),
                container_name: set_or(env.container_name, DEFAULT_CONTAINER_NAME@),
                user: container_user(*env),
            }),
    {
        let user = match &env.user {
            Some(u) => if is_blank(u) {
                copy_option_text(&env.host_user)
            } else {
                Some(u.clone())
            },
            None => copy_option_text(&env.host_user),
        };
        DockerSandboxConfig {
            host_dir,
            container_dir: set_text(&env.container_dir, DEFAULT_CONTAINER_DIR),
            image: set_text(&env.image, DEFAULT_IMAGE),
            container_name: set_text(&env.container_name, DEFAULT_CONTAINER_NAME),
            user,
        }
    }

    pub fn copy(&self) -> (r: DockerSandboxConfig)
        ensures
            r == *self,
    {
        DockerSandboxConfig {
            host_dir: self.host_dir.clone(),
            container_dir: self.container_dir.clone(),
            image: self.image.clone(),
            container_name: self.container_name.clone(),
            user: copy_option_text(&self.user),
        }
    }
}

/// A sandbox: none with or without a shell, or a container.
#[derive(Debug, Clone, PartialEq, Eq)]
#[allow(inconsistent_fields)]
pub enum SandboxConfig {
    Disabled { host_dir: String },
    NoSandbox { host_dir: String },
    Docker(DockerSandboxConfig),
}

pub enum SandboxView {
    Disabled(Seq<char>),
    NoSandbox(Seq<char>),
    Docker(DockerView),
}

impl View for SandboxConfig {
    type V = SandboxView;

    open spec fn view(&self) -> SandboxView {
        match self {
            SandboxConfig::Disabled { host_dir } => SandboxView::Disabled(host_dir@),
            SandboxConfig::NoSandbox { host_dir } => SandboxView::NoSandbox(host_dir@),
            SandboxConfig::Docker(config) => SandboxView::Docker(config@),
        }
    }
}

/// What a kind of sandbox is called in the environment: its name counts
/// without the space around it, in either case.
pub open spec fn asked_kind(env: SandboxSettings) -> Option<Seq<char>> {
    match env.kind {
        Some(k) => Some(ascii_lowercase_text(trimmed(k@))),
        None => None,
    }
}

/// The sandbox that the environment asks for.
pub open spec fn sandbox_of(data_dir: Seq<char>, mode: BashMode, env: SandboxSettings) -> SandboxView {
    let host_dir = set_or(env.host_dir, data_dir);
    let kind = asked_kind(env);
    if kind == Some("docker"@) {
        SandboxView::Docker(
            DockerView {
                host_dir,
                container_dir: set_or(env.container_dir, DEFAULT_CONTAINER_DIR@),
                image: set_or(env.image, DEFAULT_IMAGE@),
                container_name: set_or(env.container_name, DEFAULT_CONTAINER_NAME@),
                user: container_user(env),
            },
        )
    } else if kind == Some("no_sandbox"@) || kind == Some("no-sandbox"@) || kind == Some("local"@) {
        SandboxView::NoSandbox(host_dir)
    } else if kind == Some("disabled"@) {
        SandboxView::Disabled(host_dir)
    } else {
        match mode {
            BashMode::Local => SandboxView::NoSandbox(host_dir),
            BashMode::Docker => SandboxView::Disabled(host_dir),
        }
    }
}

impl SandboxConfig {
    /// The sandbox that the environment asks for; where it asks for none that
    /// is known, the one that goes with `bash_mode`.
    pub fn from_env(data_dir: &str, bash_mode: BashMode, env: &SandboxSettings) -> (r: SandboxConfig)
        ensures
            r@ == sandbox_of(data_dir@, bash_mode, *env),
    {
        let host_dir = set_text(&env.host_dir, data_dir);
        if let Some(k) = &env.kind {
            let kind = to_ascii_lowercase(&trim(k));
            if str_eq(&kind, "docker") {
                return SandboxConfig::Docker(DockerSandboxConfig::from_env(host_dir, env));
            }
            if str_eq(&kind, "no_sandbox") || str_eq(&kind, "no-sandbox") || str_eq(&kind, "local") {
                return SandboxConfig::NoSandbox { host_dir };
            }
            if str_eq(&kind, "disabled") {
                return SandboxConfig::Disabled { host_dir };
            }
        }
        match bash_mode {
            BashMode::Local => SandboxConfig::NoSandbox { host_dir },
            BashMode::Docker => SandboxConfig::Disabled { host_dir },
        }
    }

    /// Whether commands may run.
    pub fn bash_enabled(&self) -> (r: bool)
        ensures
            r == !(self@ is Disabled),
    {
        !matches!(self, SandboxConfig::Disabled { .. })
    }

    /// The name of this kind of sandbox.
    pub fn kind(&self) -> (r: &'static str)
        ensures
            r@ == match self@ {
                SandboxView::Disabled(_) => "disabled"@,
                SandboxView::NoSandbox(_) => "no_sandbox"@,
                SandboxView::Docker(_) => "docker"@,
            },
    {
        match self {
            SandboxConfig::Disabled { .. } => "disabled",
            SandboxConfig::NoSandbox { .. } => "no_sandbox",
            SandboxConfig::Docker(_) => "docker",
        }
    }

    /// The directory of the workspace on this machine.
    pub fn host_dir(&self) -> (r: &str)
        ensures
            r@ == match self@ {
                SandboxView::Disabled(dir) => dir,
                SandboxView::NoSandbox(dir) => dir,
                SandboxView::Docker(config) => config.host_dir,
            },
    {
        match self {
            SandboxConfig::Disabled { host_dir } => host_dir.as_str(),
            SandboxConfig::NoSandbox { host_dir } => host_dir.as_str(),
            SandboxConfig::Docker(config) => config.host_dir.as_str(),
        }
    }

    /// The directory of the workspace as commands see it.
    pub fn workspace_root_label(&self) -> (r: String)
        ensures
            r@ == match self@ {
                SandboxView::Disabled(dir) => dir,
                SandboxView::NoSandbox(dir) => dir,
                SandboxView::Docker(config) => config.container_dir,
            },
    {
        match self {
            SandboxConfig::Disabled { host_dir } => host_dir.clone(),
            SandboxConfig::NoSandbox { host_dir } => host_dir.clone(),
            SandboxConfig::Docker(config) => config.container_dir.clone(),
        }
    }

    /// The sandbox itself, with no command running in it.
    pub fn build(&self) -> (r: Result<BuiltSandbox, SandboxError>)
        ensures
            r is Ok,
            match self@ {
                SandboxView::Disabled(dir) => r->Ok_0 is Local && r->Ok_0->Local_0.fresh(dir),
                SandboxView::NoSandbox(dir) => r->Ok_0 is Local && r->Ok_0->Local_0.fresh(dir),
                SandboxView::Docker(config) => r->Ok_0 is Docker && r->Ok_0->Docker_0.fresh(config),
            },
    {
        match self {
            SandboxConfig::Disabled { host_dir } => Ok(
                BuiltSandbox::Local(NoSandbox::new(host_dir.clone())),
            ),
            SandboxConfig::NoSandbox { host_dir } => Ok(
                BuiltSandbox::Local(NoSandbox::new(host_dir.clone())),
            ),
            SandboxConfig::Docker(config) => Ok(
                BuiltSandbox::Docker(DockerSandbox::new(config.copy())),
            ),
        }
    }
}

// ------------------------------------------------------------------------ its laws

/// The sandbox is the one that is asked for, in whatever case it is written; where
/// none is, it goes by how commands are run. It lies where the settings say.
pub proof fn the_sandbox_is_the_one_asked_for(
    data_dir: Seq<char>,
    mode: BashMode,
    env: SandboxSettings,
)
    ensures
        ({
            let r = sandbox_of(data_dir, mode, env);
            let dir = match env.host_dir {
                Some(d) => d@,
                None => data_dir,
            };
            let kind = asked_kind(env);
            &&& kind == Some("docker"@) ==> r is Docker && r->Docker_0.host_dir == dir
            &&& kind == Some("disabled"@) ==> r == SandboxView::Disabled(dir)
            &&& kind == Some("local"@) ==> r == SandboxView::NoSandbox(dir)
            &&& kind == Some("no_sandbox"@) ==> r == SandboxView::NoSandbox(dir)
            &&& kind == Some("no-sandbox"@) ==> r == SandboxView::NoSandbox(dir)
            &&& kind is None ==> r == (match mode {
                BashMode::Local => SandboxView::NoSandbox(dir),
                BashMode::Docker => SandboxView::Disabled(dir),
            })
            &&& r matches SandboxView::Docker(d) ==> {
                &&& env.container_dir matches Some(c) ==> d.container_dir == c@
                &&& env.image matches Some(i) ==> d.image == i@
                &&& env.container_name matches Some(n) ==> d.container_name == n@
                &&& env.user matches Some(u) ==> trimmed(u@).len() > 0 ==> d.user == Some(u@)
                &&& env.user is None ==> d.user == option_text(env.host_user)
            }
        }),
        env.kind matches Some(k) ==> asked_kind(env) == Some(ascii_lowercase_text(trimmed(k@))),
        env.kind is None ==> asked_kind(env) is None,
{
    reveal_strlit("docker");
    reveal_strlit("disabled");
    reveal_strlit("local");
    reveal_strlit("no_sandbox");
    reveal_strlit("no-sandbox");
    assert("docker"@.len() == 6 && "disabled"@.len() == 8 && "local"@.len() == 5);
    assert("no_sandbox"@.len() == 10 && "no-sandbox"@.len() == 10);
}

/// A user is told by number and group where both are known.
pub proof fn users_are_told_with_their_group(uid: Seq<char>, gid: Seq<char>)
    ensures
        user_spec(Some(uid), None) is None,
        user_spec(None, Some(gid)) is None,
        trimmed(uid).len() > 0 && trimmed(gid).len() > 0 ==> user_spec(Some(uid), Some(gid))
            == Some(trimmed(uid) + ":"@ + trimmed(gid)),
        trimmed(uid).len() == 0 || trimmed(gid).len() == 0 ==> user_spec(Some(uid), Some(gid))
            is None,
{
}

} // verus!
