//! The command line context: the loaded configuration with the identity given
//! on the command line laid over it, the upload flags, and the checks that
//! refuse a flag where it does not belong.

use vstd::prelude::*;

use crate::base_client::clone_opt_header_pairs;
use crate::base_client::clone_opt_string;
use crate::base_client::expected_headers;
use crate::base_client::extra_header_sets;
use crate::base_client::header_at;
use crate::base_client::law_identity_headers;
use crate::base_client::sent_identity;
use crate::base_client::BaseClient;
use crate::base_client::TimeoutSecs;
use crate::error::Error;
use crate::json::json_get_str;
use crate::json::JsonValue;
use crate::text::trim_end_char;

verus! {

/// Upload settings of the configuration file.
#[derive(Clone, Copy, PartialEq, Eq, Structural, Debug)]
pub struct UploadConfig {}

impl Default for UploadConfig {
    fn default() -> (r: UploadConfig)
        ensures
            r == (UploadConfig {}),
    {
        UploadConfig {}
    }
}

/// How results are printed.
#[derive(Clone, Copy, PartialEq, Eq, Structural, Debug)]
pub enum OutputFormat {
    Table,
    Json,
}

/// The client configuration (`~/.openviking/ovcli.conf`). Extra headers are
/// kept as name/value pairs in the order they are sent; see `BaseClient` for
/// what that order decides.
#[derive(Clone, Debug)]
pub struct Config {
    pub url: String,
    pub api_key: Option<String>,
    pub root_api_key: Option<String>,
    pub account: Option<String>,
    pub user: Option<String>,
    pub agent_id: Option<String>,
    pub timeout: TimeoutSecs,
    pub output: String,
    pub echo_command: bool,
    pub show_progress: bool,
    pub verbose: bool,
    pub upload: UploadConfig,
    pub extra_headers: Option<Vec<(String, String)>>,
}

/// CLI context shared across commands.
#[derive(Clone, Debug)]
pub struct CliContext {
    pub config: Config,
    pub output_format: OutputFormat,
    pub compact: bool,
    pub sudo: bool,
    /// Whether to show upload progress (overrides the configuration).
    pub show_progress: Option<bool>,
    /// Whether to print upload diagnostics (overrides the configuration).
    pub verbose: Option<bool>,
}

/// `given` when there is one, `current` otherwise.
pub open spec fn override_with(current: Option<String>, given: Option<String>) -> Option<String> {
    if given is Some {
        given
    } else {
        current
    }
}

/// The API key a context speaks with: the root key under `--sudo`, the user's
/// key otherwise.
pub open spec fn effective_api_key(ctx: CliContext) -> Option<String> {
    if ctx.sudo {
        ctx.config.root_api_key
    } else {
        ctx.config.api_key
    }
}

/// An identity given on the command line always replaces the configured one,
/// whether or not the configuration has one; without it the configured
/// identity stays.
pub proof fn law_command_line_identity_wins(current: Option<String>, given: Option<String>)
    ensures
        given is Some ==> override_with(current, given) == given,
        given is None ==> override_with(current, given) == current,
        override_with(current, given) is None <==> (current is None && given is None),
{
}

impl CliContext {
    /// The context for a loaded configuration, with the identity flags of the
    /// command line (`--account`, `--user`, `--agent-id`) replacing the
    /// configured values they are given for.
    pub fn from_config(
        config: Config,
        output_format: OutputFormat,
        compact: bool,
        account: Option<String>,
        user: Option<String>,
        agent_id: Option<String>,
        sudo: bool,
        show_progress: Option<bool>,
        verbose: Option<bool>,
    ) -> (ctx: CliContext)
        ensures
            ctx.config.account == override_with(config.account, account),
            ctx.config.user == override_with(config.user, user),
            ctx.config.agent_id == override_with(config.agent_id, agent_id),
            account is Some ==> ctx.config.account == account,
            user is Some ==> ctx.config.user == user,
            agent_id is Some ==> ctx.config.agent_id == agent_id,
            ctx.config.url == config.url,
            ctx.config.api_key == config.api_key,
            ctx.config.root_api_key == config.root_api_key,
            ctx.config.timeout == config.timeout,
            ctx.config.output == config.output,
            ctx.config.echo_command == config.echo_command,
            ctx.config.show_progress == config.show_progress,
            ctx.config.verbose == config.verbose,
            ctx.config.upload == config.upload,
            ctx.config.extra_headers == config.extra_headers,
            ctx.output_format == output_format,
            ctx.compact == compact,
            ctx.sudo == sudo,
            ctx.show_progress == show_progress,
            ctx.verbose == verbose,
    {
        let mut config = config;
        if account.is_some() {
            config.account = account;
        }
        if user.is_some() {
            config.user = user;
        }
        if agent_id.is_some() {
            config.agent_id = agent_id;
        }
        CliContext { config, output_format, compact, sudo, show_progress, verbose }
    }

    /// The context for the result of loading the configuration: its error
    /// when loading failed, `from_config` otherwise.
    pub fn new(
        loaded: Result<Config, Error>,
        output_format: OutputFormat,
        compact: bool,
        account: Option<String>,
        user: Option<String>,
        agent_id: Option<String>,
        sudo: bool,
        show_progress: Option<bool>,
        verbose: Option<bool>,
    ) -> (r: Result<CliContext, Error>)
        ensures
            loaded is Err ==> r is Err && r->Err_0 == loaded->Err_0,
            loaded matches Ok(config) ==> (r matches Ok(ctx) && {
                &&& ctx.config.account == override_with(config.account, account)
                &&& ctx.config.user == override_with(config.user, user)
                &&& ctx.config.agent_id == override_with(config.agent_id, agent_id)
                &&& ctx.config.url == config.url
                &&& ctx.config.api_key == config.api_key
                &&& ctx.config.root_api_key == config.root_api_key
                &&& ctx.config.timeout == config.timeout
                &&& ctx.config.output == config.output
                &&& ctx.config.echo_command == config.echo_command
                &&& ctx.config.show_progress == config.show_progress
                &&& ctx.config.verbose == config.verbose
                &&& ctx.config.upload == config.upload
                &&& ctx.config.extra_headers == config.extra_headers
                &&& ctx.output_format == output_format
                &&& ctx.compact == compact
                &&& ctx.sudo == sudo
                &&& ctx.show_progress == show_progress
                &&& ctx.verbose == verbose
            }),
    {
        match loaded {
            Ok(config) => Ok(
                CliContext::from_config(
                    config,
                    output_format,
                    compact,
                    account,
                    user,
                    agent_id,
                    sudo,
                    show_progress,
                    verbose,
                ),
            ),
            Err(e) => Err(e),
        }
    }

    /// Whether upload progress is shown: the command line's choice, else the
    /// configuration's.
    pub fn should_show_progress(&self) -> (b: bool)
        ensures
            b == (match self.show_progress {
                Some(p) => p,
                None => self.config.show_progress,
            }),
    {
        match self.show_progress {
            Some(p) => p,
            None => self.config.show_progress,
        }
    }

    /// Whether upload diagnostics are printed: the command line's choice, else
    /// the configuration's.
    pub fn is_verbose(&self) -> (b: bool)
        ensures
            b == (match self.verbose {
                Some(v) => v,
                None => self.config.verbose,
            }),
    {
        match self.verbose {
            Some(v) => v,
            None => self.config.verbose,
        }
    }

    /// The client for this context: the configured server, identity and
    /// timeout, with the root API key under `--sudo`.
    pub fn get_client(&self) -> (c: BaseClient)
        ensures
            c.base_url@ == trim_end_char(self.config.url@, '/'),
            c.api_key == effective_api_key(*self),
            c.agent_id == self.config.agent_id,
            c.account == self.config.account,
            c.user == self.config.user,
            c.timeout == self.config.timeout,
            c.extra_headers is Some <==> self.config.extra_headers is Some,
            c.extra_headers matches Some(v) ==> v@ == self.config.extra_headers->0@,
    {
        self.get_client_with_timeout(None)
    }

    /// The client for this context with the given timeout, or the configured
    /// one when none is given.
    pub fn get_client_with_timeout(&self, timeout_secs: Option<TimeoutSecs>) -> (c: BaseClient)
        ensures
            c.base_url@ == trim_end_char(self.config.url@, '/'),
            c.api_key == effective_api_key(*self),
            c.agent_id == self.config.agent_id,
            c.account == self.config.account,
            c.user == self.config.user,
            c.timeout == (match timeout_secs {
                Some(t) => t,
                None => self.config.timeout,
            }),
            c.extra_headers is Some <==> self.config.extra_headers is Some,
            c.extra_headers matches Some(v) ==> v@ == self.config.extra_headers->0@,
    {
        let api_key = if self.sudo {
            clone_opt_string(&self.config.root_api_key)
        } else {
            clone_opt_string(&self.config.api_key)
        };
        let timeout = match timeout_secs {
            Some(t) => t,
            None => self.config.timeout,
        };
        BaseClient::new(
            self.config.url.as_str(),
            api_key,
            clone_opt_string(&self.config.agent_id),
            clone_opt_string(&self.config.account),
            clone_opt_string(&self.config.user),
            timeout,
            clone_opt_header_pairs(&self.config.extra_headers),
        )
    }

    /// The context with the upload flags of the command in force.
    pub fn with_upload_options(self, options: UploadCliOptions) -> (ctx: CliContext)
        ensures
            ctx.show_progress == options.show_progress_override_spec(),
            ctx.verbose == options.verbose_override_spec(),
            ctx.config == self.config,
            ctx.output_format == self.output_format,
            ctx.compact == self.compact,
            ctx.sudo == self.sudo,
    {
        let mut ctx = self;
        ctx.show_progress = options.show_progress_override();
        ctx.verbose = options.verbose_override();
        ctx
    }

    /// The refusal of `--sudo`, if any: it needs a configured root API key, and
    /// it is only for the admin commands.
    pub fn sudo_error(&self, command: CommandKind) -> (m: Option<&'static str>)
        ensures
            !self.sudo ==> m is None,
            self.sudo && self.config.root_api_key is None ==> (m matches Some(t) && t@
                == "--sudo requires root_api_key to be configured in ~/.openviking/ovcli.conf"@),
            self.sudo && self.config.root_api_key is Some && !command.is_admin_spec() ==> (m matches Some(t)
                && t@ == "--sudo is only supported for admin commands (admin, system, reindex)"@),
            self.sudo && self.config.root_api_key is Some && command.is_admin_spec() ==> m is None,
    {
        if self.sudo && self.config.root_api_key.is_none() {
            Some("--sudo requires root_api_key to be configured in ~/.openviking/ovcli.conf")
        } else if self.sudo && !command.is_admin_command() {
            Some("--sudo is only supported for admin commands (admin, system, reindex)")
        } else {
            None
        }
    }
}

/// The requests of a context's client are signed with the root API key under
/// `--sudo` and with the user's key otherwise (unless an extra header takes the
/// place of `X-API-Key`).
pub proof fn law_sudo_signs_with_root_key(ctx: CliContext, c: BaseClient)
    requires
        c.api_key == effective_api_key(ctx),
        !extra_header_sets(c, "x-api-key"@),
    ensures
        header_at(expected_headers(c), "x-api-key"@) == sent_identity(
            if ctx.sudo {
                ctx.config.root_api_key
            } else {
                ctx.config.api_key
            },
        ),
{
    law_identity_headers(c);
}

/// The upload flags `--progress`, `--no-progress` and `--verbose`.
#[derive(Clone, Copy, PartialEq, Eq, Structural, Debug)]
pub struct UploadCliOptions {
    pub progress: bool,
    pub no_progress: bool,
    pub verbose: bool,
}

impl Default for UploadCliOptions {
    fn default() -> (r: UploadCliOptions)
        ensures
            r == (UploadCliOptions { progress: false, no_progress: false, verbose: false }),
    {
        UploadCliOptions { progress: false, no_progress: false, verbose: false }
    }
}

impl UploadCliOptions {
    pub open spec fn show_progress_override_spec(self) -> Option<bool> {
        if self.progress {
            Some(true)
        } else if self.no_progress {
            Some(false)
        } else {
            None
        }
    }

    pub open spec fn verbose_override_spec(self) -> Option<bool> {
        if self.verbose {
            Some(true)
        } else {
            None
        }
    }

    pub open spec fn merged_spec(self, legacy: UploadCliOptions) -> UploadCliOptions {
        UploadCliOptions {
            progress: self.progress || (!self.no_progress && legacy.progress),
            no_progress: self.no_progress || (!self.progress && legacy.no_progress),
            verbose: self.verbose || legacy.verbose,
        }
    }

    /// Whether any upload flag is given.
    pub fn is_set(self) -> (b: bool)
        ensures
            b == (self.progress || self.no_progress || self.verbose),
    {
        self.progress || self.no_progress || self.verbose
    }

    /// The flags given after the command, completed by those given before it
    /// (the legacy placement); a progress choice after the command wins.
    pub fn merged_with_legacy(self, legacy: UploadCliOptions) -> (r: UploadCliOptions)
        ensures
            r == self.merged_spec(legacy),
    {
        UploadCliOptions {
            progress: self.progress || (!self.no_progress && legacy.progress),
            no_progress: self.no_progress || (!self.progress && legacy.no_progress),
            verbose: self.verbose || legacy.verbose,
        }
    }

    /// The progress choice the flags make, if any.
    pub fn show_progress_override(self) -> (r: Option<bool>)
        ensures
            r == self.show_progress_override_spec(),
    {
        if self.progress {
            Some(true)
        } else if self.no_progress {
            Some(false)
        } else {
            None
        }
    }

    /// The diagnostics choice the flags make, if any.
    pub fn verbose_override(self) -> (r: Option<bool>)
        ensures
            r == self.verbose_override_spec(),
    {
        if self.verbose {
            Some(true)
        } else {
            None
        }
    }
}

/// The progress choice of merged upload flags is the one made after the
/// command when a progress flag is given there, and the one made before the
/// command otherwise; diagnostics are on when asked for in either place.
pub proof fn law_command_upload_flags_take_precedence(
    local: UploadCliOptions,
    legacy: UploadCliOptions,
)
    ensures
        local.merged_spec(legacy).show_progress_override_spec() == (if local.progress
            || local.no_progress {
            local.show_progress_override_spec()
        } else {
            legacy.show_progress_override_spec()
        }),
        local.merged_spec(legacy).verbose_override_spec() == (if local.verbose || legacy.verbose {
            Some(true)
        } else {
            None
        }),
{
}

/// The commands of the command line.
#[derive(Clone, Copy, PartialEq, Eq, Structural, Debug)]
pub enum CommandKind {
    AddResource,
    AddSkill,
    Ls,
    Tree,
    Mkdir,
    Rm,
    Mv,
    Stat,
    Read,
    Abstract,
    Overview,
    Write,
    Get,
    Find,
    Search,
    Grep,
    Glob,
    Session,
    AddMemory,
    Privacy,
    Relations,
    Link,
    Unlink,
    Export,
    Backup,
    Import,
    Restore,
    Tui,
    Chat,
    Wait,
    Task,
    Status,
    Observer,
    Health,
    Config,
    Version,
    Admin,
    System,
    Reindex,
}

impl CommandKind {
    pub open spec fn is_admin_spec(self) -> bool {
        self is Admin || self is System || self is Reindex
    }

    pub open spec fn supports_upload_spec(self) -> bool {
        self is AddResource || self is AddSkill
    }

    /// The admin commands, which `--sudo` may accompany.
    pub fn is_admin_command(&self) -> (b: bool)
        ensures
            b == self.is_admin_spec(),
    {
        match self {
            CommandKind::Admin | CommandKind::System | CommandKind::Reindex => true,
            _ => false,
        }
    }

    /// The commands that upload local files and take the upload flags.
    pub fn supports_upload_options(&self) -> (b: bool)
        ensures
            b == self.supports_upload_spec(),
            b == (*self is AddResource || *self is AddSkill),
    {
        match self {
            CommandKind::AddResource | CommandKind::AddSkill => true,
            _ => false,
        }
    }
}

/// Only `add-resource` and `add-skill` take upload flags; every other command
/// refuses any of them given before it, and no command refuses none.
pub proof fn law_only_upload_commands_take_upload_flags(
    command: CommandKind,
    options: UploadCliOptions,
)
    ensures
        command.supports_upload_spec() <==> (command == CommandKind::AddResource || command
            == CommandKind::AddSkill),
        ((options.progress || options.no_progress || options.verbose) && command
            != CommandKind::AddResource && command != CommandKind::AddSkill)
            ==> !command.supports_upload_spec(),
{
}

/// The refusal of upload flags given before a command that takes none.
pub fn legacy_upload_option_error(options: UploadCliOptions, command: &CommandKind) -> (m: Option<
    &'static str,
>)
    ensures
        m is Some <==> (options.progress || options.no_progress || options.verbose)
            && !command.supports_upload_spec(),
        m is Some <==> (options.progress || options.no_progress || options.verbose) && !(
        *command is AddResource || *command is AddSkill),
        m matches Some(t) ==> t@
            == "--progress, --no-progress, and --verbose are only supported for add-resource and add-skill"@,
{
    if options.is_set() && !command.supports_upload_options() {
        Some(
            "--progress, --no-progress, and --verbose are only supported for add-resource and add-skill",
        )
    } else {
        None
    }
}

/// The write mode of `write`: the one given with `--mode`, else `append` with
/// `--append`, else `replace`.
pub fn effective_write_mode(mode: Option<String>, append: bool) -> (r: String)
    ensures
        mode matches Some(m) ==> r == m,
        mode is None && append ==> r@ == "append"@,
        mode is None && !append ==> r@ == "replace"@,
{
    match mode {
        Some(m) => m,
        None => {
            if append {
                "append".to_owned()
            } else {
                "replace".to_owned()
            }
        },
    }
}

/// Where `chat` talks to the bot: `VIKINGBOT_ENDPOINT` when set, else the bot
/// path under `OPENVIKING_URL` when set, else under the configured server.
pub fn chat_endpoint(env_endpoint: Option<String>, env_url: Option<String>, config_url: &str) -> (r:
    String)
    ensures
        env_endpoint matches Some(e) ==> r == e,
        env_endpoint is None && env_url is Some ==> r@ == env_url->0@ + "/bot/v1"@,
        env_endpoint is None && env_url is None ==> r@ == config_url@ + "/bot/v1"@,
{
    match env_endpoint {
        Some(e) => e,
        None => match env_url {
            Some(url) => {
                let mut r = url;
                r.append("/bot/v1");
                r
            },
            None => {
                let mut r = config_url.to_owned();
                r.append("/bot/v1");
                r
            },
        },
    }
}

/// The key `chat` sends: `VIKINGBOT_API_KEY` when set, else the configured key.
pub fn chat_api_key(env_key: Option<String>, config_key: &Option<String>) -> (r: Option<String>)
    ensures
        env_key is Some ==> r == env_key,
        env_key is None ==> r == *config_key,
{
    match env_key {
        Some(k) => Some(k),
        None => clone_opt_string(config_key),
    }
}

/// The server version a health answer reports in its `version` member.
pub fn server_version(health: &JsonValue) -> (r: Option<String>)
    ensures
        r matches Some(v) ==> json_get_str(*health, "version"@) == Some(v@),
        r is None <==> json_get_str(*health, "version"@) is None,
{
    match health.get_str("version") {
        Some(v) => Some(v.to_owned()),
        None => None,
    }
}

} // verus!
