use ov_cli::base_client::TimeoutSecs;
use ov_cli::cli::chat_api_key;
use ov_cli::cli::chat_endpoint;
use ov_cli::cli::effective_write_mode;
use ov_cli::cli::legacy_upload_option_error;
use ov_cli::cli::CliContext;
use ov_cli::cli::CommandKind;
use ov_cli::cli::Config;
use ov_cli::cli::OutputFormat;
use ov_cli::cli::UploadCliOptions;
use ov_cli::cli::UploadConfig;
use ov_cli::error::Error;

fn config_with_identity() -> Config {
    Config {
        url: "http://localhost:1933".to_string(),
        api_key: Some("test-key".to_string()),
        root_api_key: None,
        account: Some("from-config-account".to_string()),
        user: Some("from-config-user".to_string()),
        agent_id: Some("from-config-agent".to_string()),
        timeout: TimeoutSecs { bits: 60.0f64.to_bits() },
        output: "table".to_string(),
        echo_command: true,
        show_progress: false,
        verbose: false,
        upload: Default::default(),
        extra_headers: None,
    }
}

fn config_with_keys() -> Config {
    Config {
        url: "http://localhost:1933".to_string(),
        api_key: Some("user-key".to_string()),
        root_api_key: Some("root-key".to_string()),
        account: None,
        user: None,
        agent_id: None,
        timeout: TimeoutSecs { bits: 60.0f64.to_bits() },
        output: "table".to_string(),
        echo_command: true,
        show_progress: false,
        verbose: false,
        upload: Default::default(),
        extra_headers: None,
    }
}

#[test]
fn cli_context_overrides_identity_from_cli_flags() {
    let config = config_with_identity();

    let ctx = CliContext::from_config(
        config,
        OutputFormat::Json,
        true,
        Some("from-cli-account".to_string()),
        Some("from-cli-user".to_string()),
        Some("from-cli-agent".to_string()),
        false,
        None,
        None,
    );

    assert_eq!(ctx.config.account.as_deref(), Some("from-cli-account"));
    assert_eq!(ctx.config.user.as_deref(), Some("from-cli-user"));
    assert_eq!(ctx.config.agent_id.as_deref(), Some("from-cli-agent"));
}

#[test]
fn cli_context_uses_root_api_key_with_sudo() {
    // Without sudo: use api_key
    let ctx = CliContext::from_config(
        config_with_keys(),
        OutputFormat::Json,
        true,
        None,
        None,
        None,
        false,
        None,
        None,
    );
    let client = ctx.get_client();
    assert_eq!(client.api_key(), Some("user-key"));

    // With sudo: use root_api_key
    let ctx = CliContext::from_config(
        config_with_keys(),
        OutputFormat::Json,
        true,
        None,
        None,
        None,
        true,
        None,
        None,
    );
    let client = ctx.get_client();
    assert_eq!(client.api_key(), Some("root-key"));
}

#[test]
fn legacy_pre_command_upload_flags_only_allow_upload_commands() {
    let upload_options = UploadCliOptions {
        progress: true,
        no_progress: false,
        verbose: false,
    };

    assert!(legacy_upload_option_error(upload_options, &CommandKind::Tree).is_some());
    assert!(legacy_upload_option_error(upload_options, &CommandKind::AddResource).is_none());
}

#[test]
fn cli_context_keeps_config_identity_without_flags() {
    let ctx = CliContext::from_config(
        config_with_identity(),
        OutputFormat::Table,
        false,
        None,
        Some("cli-user".to_string()),
        None,
        false,
        None,
        None,
    );
    assert_eq!(ctx.config.account.as_deref(), Some("from-config-account"));
    assert_eq!(ctx.config.user.as_deref(), Some("cli-user"));
    assert_eq!(ctx.config.agent_id.as_deref(), Some("from-config-agent"));
    assert_eq!(f64::from_bits(ctx.config.timeout.bits), 60.0);
    assert_eq!(ctx.output_format, OutputFormat::Table);
    assert!(!ctx.compact);
}

#[test]
fn cli_context_new_passes_load_error_through() {
    let loaded: Result<Config, Error> = Err(Error::Config("no config file".to_string()));
    let r = CliContext::new(loaded, OutputFormat::Json, true, None, None, None, false, None, None);
    match r {
        Err(Error::Config(m)) => assert_eq!(m, "no config file"),
        _ => panic!("expected the load error"),
    }
    let r = CliContext::new(
        Ok(config_with_identity()),
        OutputFormat::Json,
        true,
        Some("acme".to_string()),
        None,
        None,
        false,
        Some(true),
        None,
    );
    let ctx = match r {
        Ok(ctx) => ctx,
        Err(_) => panic!("expected a context"),
    };
    assert_eq!(ctx.config.account.as_deref(), Some("acme"));
    assert!(ctx.should_show_progress());
    assert!(!ctx.is_verbose());
}

#[test]
fn get_client_trims_trailing_slashes_and_copies_identity() {
    let mut config = config_with_identity();
    config.url = "http://localhost:1933///".to_string();
    config.extra_headers = Some(vec![("X-Trace".to_string(), "1".to_string())]);
    let ctx = CliContext::from_config(config, OutputFormat::Json, true, None, None, None, false, None, None);
    let client = ctx.get_client();
    assert_eq!(client.base_url(), "http://localhost:1933");
    assert_eq!(client.api_key(), Some("test-key"));
    assert_eq!(client.user_id(), Some("from-config-user"));
    assert_eq!(client.agent_id(), Some("from-config-agent"));
    assert_eq!(client.account.as_deref(), Some("from-config-account"));
    assert_eq!(client.extra_headers, Some(vec![("X-Trace".to_string(), "1".to_string())]));
    assert_eq!(f64::from_bits(client.timeout.bits), 60.0);
}

#[test]
fn get_client_with_timeout_prefers_the_given_timeout() {
    let ctx = CliContext::from_config(
        config_with_keys(),
        OutputFormat::Table,
        true,
        None,
        None,
        None,
        true,
        None,
        None,
    );
    let quick = ctx.get_client_with_timeout(Some(TimeoutSecs { bits: 3.0f64.to_bits() }));
    assert_eq!(f64::from_bits(quick.timeout.bits), 3.0);
    assert_eq!(quick.api_key(), Some("root-key"));
    let default = ctx.get_client_with_timeout(None);
    assert_eq!(f64::from_bits(default.timeout.bits), 60.0);
}

#[test]
fn progress_and_verbose_fall_back_to_config() {
    let mut config = config_with_identity();
    config.show_progress = true;
    config.verbose = true;
    let ctx = CliContext::from_config(config, OutputFormat::Json, true, None, None, None, false, None, None);
    assert!(ctx.should_show_progress());
    assert!(ctx.is_verbose());
    let ctx = ctx.with_upload_options(UploadCliOptions { progress: false, no_progress: true, verbose: false });
    assert!(!ctx.should_show_progress());
    assert_eq!(ctx.show_progress, Some(false));
    assert_eq!(ctx.verbose, None);
    assert!(ctx.is_verbose());
}

#[test]
fn command_upload_flags_take_precedence_over_legacy_ones() {
    let local = UploadCliOptions { progress: false, no_progress: true, verbose: false };
    let legacy = UploadCliOptions { progress: true, no_progress: false, verbose: true };
    let merged = local.merged_with_legacy(legacy);
    assert_eq!(merged, UploadCliOptions { progress: false, no_progress: true, verbose: true });
    assert_eq!(merged.show_progress_override(), Some(false));
    assert_eq!(merged.verbose_override(), Some(true));

    let none = UploadCliOptions::default();
    let merged = none.merged_with_legacy(legacy);
    assert_eq!(merged.show_progress_override(), Some(true));
    assert!(!none.is_set());
    assert!(legacy.is_set());
    assert_eq!(none.show_progress_override(), None);
    assert_eq!(none.verbose_override(), None);
}

#[test]
fn upload_flags_are_accepted_only_by_upload_commands() {
    let verbose = UploadCliOptions { progress: false, no_progress: false, verbose: true };
    assert!(legacy_upload_option_error(verbose, &CommandKind::AddSkill).is_none());
    assert_eq!(
        legacy_upload_option_error(verbose, &CommandKind::Ls),
        Some("--progress, --no-progress, and --verbose are only supported for add-resource and add-skill")
    );
    assert!(legacy_upload_option_error(UploadCliOptions::default(), &CommandKind::Ls).is_none());
    assert!(CommandKind::AddResource.supports_upload_options());
    assert!(!CommandKind::Reindex.supports_upload_options());
}

#[test]
fn sudo_needs_root_key_and_admin_command() {
    let ctx = CliContext::from_config(config_with_identity(), OutputFormat::Json, true, None, None, None, true, None, None);
    assert_eq!(
        ctx.sudo_error(CommandKind::Admin),
        Some("--sudo requires root_api_key to be configured in ~/.openviking/ovcli.conf")
    );
    let ctx = CliContext::from_config(config_with_keys(), OutputFormat::Json, true, None, None, None, true, None, None);
    assert_eq!(
        ctx.sudo_error(CommandKind::Ls),
        Some("--sudo is only supported for admin commands (admin, system, reindex)")
    );
    assert_eq!(ctx.sudo_error(CommandKind::Reindex), None);
    assert_eq!(ctx.sudo_error(CommandKind::System), None);
    let ctx = CliContext::from_config(config_with_keys(), OutputFormat::Json, true, None, None, None, false, None, None);
    assert_eq!(ctx.sudo_error(CommandKind::Ls), None);
    assert!(CommandKind::Admin.is_admin_command());
    assert!(!CommandKind::Tree.is_admin_command());
}

#[test]
fn write_mode_defaults_to_replace() {
    assert_eq!(effective_write_mode(Some("create".to_string()), true), "create");
    assert_eq!(effective_write_mode(None, true), "append");
    assert_eq!(effective_write_mode(None, false), "replace");
}

#[test]
fn chat_endpoint_and_key_prefer_environment() {
    assert_eq!(
        chat_endpoint(Some("http://bot".to_string()), Some("http://ov".to_string()), "http://cfg"),
        "http://bot"
    );
    assert_eq!(chat_endpoint(None, Some("http://ov".to_string()), "http://cfg"), "http://ov/bot/v1");
    assert_eq!(chat_endpoint(None, None, "http://cfg"), "http://cfg/bot/v1");
    assert_eq!(chat_api_key(Some("env".to_string()), &Some("cfg".to_string())), Some("env".to_string()));
    assert_eq!(chat_api_key(None, &Some("cfg".to_string())), Some("cfg".to_string()));
    assert_eq!(chat_api_key(None, &None), None);
}

#[test]
fn upload_config_default_is_empty() {
    assert_eq!(UploadConfig::default(), UploadConfig {});
}
