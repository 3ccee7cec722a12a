use deepseek_desktop::validation::{redact, validate_config, validate_relative_path};
use deepseek_desktop::models::{join_path, AppConfig};
use deepseek_desktop::versions::{
    node_version_key, node_version_supported, parsed_version, pnpm_version_supported,
};
use deepseek_desktop::command::program_names;
use deepseek_desktop::models::CommandConfig;
use deepseek_desktop::validation::{
    validate_command, validate_lm_url, validate_port, validate_repo_url, validate_source_dir,
};

#[test]
fn redacts_common_secret_fields() {
    assert_eq!(
        redact("Authorization: Bearer abc123"),
        "Authorization: [REDACTED]"
    );
}

#[test]
fn rejects_paths_that_escape_checkout() {
    assert!(validate_relative_path("../dist", false).is_err());
    assert!(validate_relative_path("dist", false).is_ok());
}

#[test]
fn default_config_does_not_touch_harness_user_config() {
    let config = AppConfig::default_for_home(None, false);
    assert_eq!(config.lm_studio.api_url, "http://127.0.0.1:1234/v1/models");
    assert_eq!(config.harness.branch, "master");
    assert!(config
        .harness
        .artifact_paths
        .contains(&"apps/cli/lib/bin.js".into()));
    assert!(validate_config(&config, false).is_ok());
}

#[test]
fn enforces_harness_runtime_versions() {
    assert_eq!(parsed_version("v24.19.0"), Some((24, 19, 0)));
    assert!(node_version_key("/tmp/v24.19.0/bin", false) > node_version_key("/tmp/v20.20.2/bin", false));
    assert!(node_version_supported("v24.19.0"));
    assert!(node_version_supported("v22.19.0"));
    assert!(!node_version_supported("v20.20.2"));
    assert!(pnpm_version_supported("11.7.0"));
    assert!(!pnpm_version_supported("10.33.0"));
}

#[test]
fn recognizes_windows_command_wrappers() {
    let names = program_names("pnpm", true);
    assert!(names.iter().any(|name| name == "pnpm.exe"));
    assert!(names.iter().any(|name| name == "pnpm.cmd"));
    assert!(names.iter().any(|name| name == "pnpm.bat"));
}

#[test]
fn source_dir_rejects_blank_nul_and_root() {
    assert_eq!(
        validate_source_dir("   ", false).unwrap_err(),
        "Harness 源码目录不能为空或包含非法字符"
    );
    assert_eq!(
        validate_source_dir("a\0b", false).unwrap_err(),
        "Harness 源码目录不能为空或包含非法字符"
    );
    assert_eq!(
        validate_source_dir("/", false).unwrap_err(),
        "为了避免误操作，源码目录不能是文件系统根目录"
    );
    assert_eq!(
        validate_source_dir(" //./ ", false).unwrap_err(),
        "为了避免误操作，源码目录不能是文件系统根目录"
    );
    assert!(validate_source_dir("/home/user/deepseek-harness", false).is_ok());
    assert!(validate_source_dir("deepseek-harness", false).is_ok());
    assert!(validate_source_dir("/tmp", false).is_ok());
}

#[test]
fn repo_url_accepts_only_known_schemes() {
    assert!(validate_repo_url("https://github.com/a/b.git").is_ok());
    assert!(validate_repo_url("  git@github.com:a/b.git  ").is_ok());
    assert!(validate_repo_url("ssh://git@host/repo").is_ok());
    assert!(validate_repo_url("http://host/repo").is_ok());
    assert_eq!(
        validate_repo_url("ftp://host/repo").unwrap_err(),
        "Git URL 需要使用 HTTPS、SSH 或 git@host:path 格式"
    );
    assert!(validate_repo_url("https://host/a b").is_err());
    assert!(validate_repo_url("https://host/a\u{3000}b").is_err());
}

#[test]
fn lm_url_rejects_credentials_and_other_schemes() {
    assert!(validate_lm_url("http://127.0.0.1:1234/v1/models").is_ok());
    assert!(validate_lm_url("https://lm.local/v1/models").is_ok());
    assert_eq!(
        validate_lm_url("http://user:pw@host/v1").unwrap_err(),
        "LM Studio API 地址必须是不含凭据的 HTTP(S) URL"
    );
    assert!(validate_lm_url("ws://host/v1").is_err());
    assert!(validate_lm_url("http://host/a\tb").is_err());
}

#[test]
fn port_zero_is_rejected() {
    assert_eq!(validate_port(0).unwrap_err(), "端口必须是 1 到 65535 之间的整数");
    assert!(validate_port(1).is_ok());
    assert!(validate_port(65535).is_ok());
}

#[test]
fn command_rejects_blank_program_and_nul_arguments() {
    let blank = CommandConfig { program: " ".into(), args: vec![] };
    assert_eq!(validate_command(&blank).unwrap_err(), "可执行文件不能为空或包含非法字符");
    let nul_arg = CommandConfig { program: "pnpm".into(), args: vec!["ok".into(), "a\0".into()] };
    assert_eq!(validate_command(&nul_arg).unwrap_err(), "命令参数包含非法字符");
    let good = CommandConfig { program: "pnpm".into(), args: vec!["run".into()] };
    assert!(validate_command(&good).is_ok());
}

#[test]
fn relative_path_error_names_the_path() {
    assert_eq!(
        validate_relative_path("/etc", false).unwrap_err(),
        "清理路径必须是源码目录内的相对路径: /etc"
    );
    assert!(validate_relative_path("a/../../b", false).is_err());
    assert!(validate_relative_path("  ", false).is_err());
    assert!(validate_relative_path("./dist/..x", false).is_ok());
    assert!(validate_relative_path("apps/web/dist", false).is_ok());
}

#[test]
fn config_reports_first_error_in_order() {
    let mut config = AppConfig::default_for_home(Some("/home/u".into()), false);
    assert_eq!(config.harness.source_dir, "/home/u/deepseek-harness");
    assert!(validate_config(&config, false).is_ok());
    config.harness.branch = " ".into();
    config.lm_studio.api_url = "ftp://x".into();
    assert_eq!(validate_config(&config, false).unwrap_err(), "分支名和远程仓库名不能为空");
    config.harness.port = 0;
    assert_eq!(validate_config(&config, false).unwrap_err(), "端口必须是 1 到 65535 之间的整数");
}

#[test]
fn default_source_dir_joins_home() {
    assert_eq!(
        AppConfig::default_for_home(Some("/home/u/".into()), false).harness.source_dir,
        "/home/u/deepseek-harness"
    );
    assert_eq!(
        AppConfig::default_for_home(Some("".into()), false).harness.source_dir,
        "deepseek-harness"
    );
}

#[test]
fn redaction_covers_each_field_and_keeps_other_text() {
    assert_eq!(
        redact("token: abc, user: bob, password:hunter2"),
        "token: [REDACTED], user: bob, password: [REDACTED]"
    );
    assert_eq!(redact("api_key=abc"), "api_key=abc");
    assert_eq!(redact("nothing secret here"), "nothing secret here");
    assert_eq!(
        redact("apiKey: 1, secret: 2"),
        "apiKey: [REDACTED], secret: [REDACTED]"
    );
}

#[test]
fn every_secret_field_value_is_hidden() {
    for key in ["Authorization", "authorization", "api_key", "apiKey", "token", "password", "secret"] {
        for value in ["", " Bearer abc123", "x:y token: z", " 密码"] {
            assert_eq!(redact(&format!("{key}:{value}")), format!("{key}: [REDACTED]"));
        }
    }
}

#[test]
fn default_config_is_valid_for_any_home() {
    for home in [None, Some(""), Some("/"), Some("/home/u"), Some("/home/u/"), Some("  relative dir "), Some("C:\\Users\\u")] {
        let config = AppConfig::default_for_home(home.map(String::from), false);
        assert!(validate_config(&config, false).is_ok(), "home {home:?}");
    }
}

#[test]
fn windows_paths_outside_the_checkout_are_refused() {
    assert!(validate_relative_path("..\\dist", true).is_err());
    assert!(validate_relative_path("C:\\dist", true).is_err());
    assert!(validate_relative_path("C:dist", true).is_err());
    assert!(validate_relative_path("\\dist", true).is_err());
    assert!(validate_relative_path("\\\\server\\share\\dist", true).is_err());
    assert!(validate_relative_path("apps\\web\\dist", true).is_ok());
    assert!(validate_relative_path("..\\dist", false).is_ok());
    assert!(validate_source_dir("C:\\", true).is_err());
    assert!(validate_source_dir("C:", true).is_err());
    assert!(validate_source_dir("\\\\?\\C:\\", true).is_err());
    assert!(validate_source_dir("\\\\server\\share", true).is_err());
    assert!(validate_source_dir("C:\\Users\\u\\deepseek-harness", true).is_ok());
    assert!(validate_source_dir("\\\\server\\share\\harness", true).is_ok());
}

#[test]
fn windows_default_directory_and_versions() {
    assert_eq!(
        AppConfig::default_for_home(Some("C:\\Users\\u".into()), true).harness.source_dir,
        "C:\\Users\\u\\deepseek-harness"
    );
    assert_eq!(
        AppConfig::default_for_home(Some("C:".into()), true).harness.source_dir,
        "C:deepseek-harness"
    );
    assert!(validate_config(&AppConfig::default_for_home(Some("C:\\Users\\u".into()), true), true).is_ok());
    assert_eq!(node_version_key("C:\\nvm\\v22.19.1\\bin", true), (22, 19, 1));
    assert_eq!(node_version_key("C:\\nvm\\v22.19.1\\bin", false), (0, 0, 0));
}

#[test]
fn printed_versions_read_back() {
    for (a, b, c) in [(0u32, 0u32, 0u32), (24, 19, 0), (11, 7, 3), (u32::MAX, 1, u32::MAX)] {
        assert_eq!(parsed_version(&format!("{a}.{b}.{c}")), Some((a, b, c)));
        assert_eq!(parsed_version(&format!("v{a}.{b}.{c}")), Some((a, b, c)));
    }
}

#[test]
fn redacting_twice_changes_nothing() {
    for text in [
        "Authorization: Bearer abc123",
        "token: a, password: b, rest",
        "secret: token: x, y",
        "token secret: x, apiKey",
        "api_key:1,api_key:2,,token",
        "no secrets here",
    ] {
        let once = redact(text);
        assert_eq!(redact(&once), once);
    }
}

#[test]
fn joins_paths_as_the_platform_does() {
    assert_eq!(join_path("/home/u", ".local/bin", false), "/home/u/.local/bin");
    assert_eq!(join_path("/home/u/", ".local/bin", false), "/home/u/.local/bin");
    assert_eq!(join_path("", "x", false), "x");
    assert_eq!(join_path("/home/u", "/opt/x", false), "/opt/x");
    assert_eq!(join_path("C:\\Users\\u", ".local/bin", true), "C:\\Users\\u\\.local/bin");
    assert_eq!(join_path("C:\\Users\\u/", "npm", true), "C:\\Users\\u/npm");
    assert_eq!(join_path("C:", "npm", true), "C:npm");
    assert_eq!(join_path("C:\\Users\\u", "D:\\x", true), "D:\\x");
    assert_eq!(join_path("C:\\Users\\u", "\\x", true), "C:\\x");
    assert_eq!(join_path("\\\\?\\C:\\Users\\u", ".local/bin", true), "\\\\?\\C:\\Users\\u\\.local\\bin");
    assert_eq!(join_path("\\\\?\\C:\\Users\\u\\", "npm", true), "\\\\?\\C:\\Users\\u\\npm");
    assert_eq!(join_path("\\\\?\\C:", "npm", true), "\\\\?\\C:\\npm");
    assert_eq!(join_path("\\\\?\\C:\\Users\\u", "./a/../../b", true), "\\\\?\\C:\\Users\\b");
    assert_eq!(join_path("\\\\?\\UNC\\srv\\share\\u", "/x", true), "\\\\?\\UNC\\srv\\share\\x");
    assert_eq!(
        AppConfig::default_for_home(Some("\\\\?\\C:\\Users\\u".into()), true).harness.source_dir,
        "\\\\?\\C:\\Users\\u\\deepseek-harness"
    );
}
