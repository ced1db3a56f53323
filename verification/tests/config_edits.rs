use codex_account_manager::config::{
    codex_config_toml_with_speed, codex_config_toml_with_trusted_project,
    is_project_trusted_in_config, project_section_header, section_project_path, CodexAppSpeed,
};
use codex_account_manager::proxy_config::{
    codex_proxy_config_installed, codex_proxy_config_toml, remove_codex_proxy_config_toml,
};
use codex_account_manager::toml::{read_service_tier_from_config, toml_section_name};

const CODEX_PRIORITY_SERVICE_TIER: &str = "priority";

#[test]
fn codex_proxy_config_installs_managed_provider() {
    let original = r#"model = "gpt-5"
openai_base_url = "https://legacy.example.com/v1"

[features]
goals = true
"#;
    let next = codex_proxy_config_toml(original, 14998);

    assert!(codex_proxy_config_installed(&next));
    assert!(next.contains("model_provider = \"codex_account_manager_proxy\""));
    assert!(next.contains("[model_providers.codex_account_manager_proxy]"));
    assert!(next.contains("base_url = \"http://127.0.0.1:14998/v1\""));
    assert!(next.contains("wire_api = \"responses\""));
    assert!(next.contains("[features]\ngoals = true"));
    assert!(!next.contains("openai_base_url"));
}

#[test]
fn codex_proxy_config_removal_only_cleans_managed_provider() {
    let installed = codex_proxy_config_toml(
        r#"[model_providers.manual]
name = "Manual"
base_url = "https://manual.example.com/v1"
"#,
        14998,
    );
    let cleaned = remove_codex_proxy_config_toml(&installed);

    assert!(!codex_proxy_config_installed(&cleaned));
    assert!(!cleaned.contains("codex_account_manager_proxy"));
    assert!(cleaned.contains("[model_providers.manual]"));
    assert!(cleaned.contains("https://manual.example.com/v1"));
}

#[test]
fn codex_speed_config_toggles_desktop_service_tier() {
    let original = r#"[model]
name = "gpt-5"

[desktop]
theme = "system"
default-service-tier = "priority"

[other]
enabled = true
"#;
    let standard = codex_config_toml_with_speed(original, &CodexAppSpeed::Standard);

    assert!(standard.contains("[desktop]"));
    assert!(standard.contains("theme = \"system\""));
    assert!(!standard.contains("default-service-tier"));
    assert!(standard.contains("[other]"));

    let fast = codex_config_toml_with_speed(&standard, &CodexAppSpeed::Fast);

    let tier_index = fast.find("default-service-tier = \"priority\"").unwrap();
    let other_index = fast.find("[other]").unwrap();
    assert!(tier_index < other_index);
    assert_eq!(
        read_service_tier_from_config(&fast).as_deref(),
        Some(CODEX_PRIORITY_SERVICE_TIER)
    );
}

#[test]
fn project_visibility_repair_only_touches_target_project() {
    let original = r#"model = "gpt-5.5"

[features]
goals = true

[projects.'D:\project\old']
trust_level = "trusted"

[projects.'D:\project\rust\codex_account_manager']
trust_level = "untrusted"

[memories]
use_memories = true
"#;
    let (next, changed) = codex_config_toml_with_trusted_project(
        original,
        r#"d:\project\rust\codex_account_manager"#,
    );

    assert!(changed);
    assert!(next.contains("model = \"gpt-5.5\""));
    assert!(next.contains("[features]\ngoals = true"));
    assert!(next.contains("[memories]\nuse_memories = true"));
    assert!(next.contains("[projects.'D:\\project\\old']\ntrust_level = \"trusted\""));
    assert!(is_project_trusted_in_config(
        &next,
        r#"D:\project\rust\codex_account_manager"#
    ));
    assert!(!next.contains("provider"));
    assert!(!next.contains("base_url"));
}

#[test]
fn project_visibility_repair_appends_missing_project() {
    let original = r#"[features]
goals = true
"#;
    let (next, changed) = codex_config_toml_with_trusted_project(original, r#"D:\project\new"#);

    assert!(changed);
    assert!(next.contains("[features]\ngoals = true"));
    assert!(next.contains("[projects.'D:\\project\\new']\ntrust_level = \"trusted\""));
}

#[test]
fn section_project_path_reads_back_the_header_path() {
    for path in ["/home/me/project", "C:\\work\\app", " spaced path ", ""] {
        let header = project_section_header(path);
        let section = toml_section_name(&header).unwrap();
        assert_eq!(section_project_path(&section), Some(path.to_string()));
    }
    assert_eq!(section_project_path("features"), None);
    assert_eq!(section_project_path("projects.\"C:\\\\a\""), Some("C:\\a".to_string()));
    assert_eq!(section_project_path("projects. plain "), Some("plain".to_string()));
}

#[test]
fn setting_a_speed_twice_is_setting_it_once() {
    let contents = [
        "",
        "\n",
        "model = \"gpt-5\"\n",
        "[desktop]\ndefault-service-tier = \"flex\"\ntheme = \"dark\"\n[other]\nx = 1\n",
        "[desktop]\ntheme = \"dark\"\n[desktop]\ndefault-service-tier = \"fast\"\ndefault-service-tier = \"flex\"",
        "a = 1\r\nb = 2\r\n",
    ];
    for content in contents {
        for speed in [CodexAppSpeed::Fast, CodexAppSpeed::Standard] {
            let once = codex_config_toml_with_speed(content, &speed);
            assert_eq!(codex_config_toml_with_speed(&once, &speed), once);
        }
    }
}

#[test]
fn edits_append_a_missing_section_after_the_kept_lines() {
    assert_eq!(
        codex_config_toml_with_speed("a = 1\n[other]\nb = 2", &CodexAppSpeed::Fast),
        "a = 1\n[other]\nb = 2\n\n[desktop]\ndefault-service-tier = \"priority\"\n"
    );
    assert_eq!(
        codex_config_toml_with_speed("a = 1\n\n", &CodexAppSpeed::Fast),
        "a = 1\n\n[desktop]\ndefault-service-tier = \"priority\"\n"
    );
    assert_eq!(
        codex_config_toml_with_speed("a = 1\n[other]\nb = 2", &CodexAppSpeed::Standard),
        "a = 1\n[other]\nb = 2\n"
    );
    let (trusted, changed) = codex_config_toml_with_trusted_project("a = 1\n", "/tmp/p");
    assert!(changed);
    assert_eq!(trusted, "a = 1\n\n[projects.'/tmp/p']\ntrust_level = \"trusted\"\n");
}

#[test]
fn removing_the_installed_proxy_gives_back_the_file() {
    for content in ["", "  \n\n", "[a]\nx = 1\n", "\n\n  [a]  \nx = 1\n# note\n\n", "[a]\n[b]\ny = \"z\""] {
        let installed = codex_proxy_config_toml(content, 8080);
        let trimmed = content.trim();
        let expected = if trimmed.is_empty() { String::new() } else { format!("{}\n", trimmed) };
        assert_eq!(remove_codex_proxy_config_toml(&installed), expected);
    }
}

#[test]
fn fast_speed_leaves_exactly_one_tier_line() {
    let content = "[desktop]\ndefault-service-tier = \"a\"\ntheme = 1\n[other]\ndefault-service-tier = \"x\"\n[desktop]\ndefault-service-tier = \"b\"\n";
    let fast = codex_config_toml_with_speed(content, &CodexAppSpeed::Fast);
    assert_eq!(
        fast,
        "[desktop]\ndefault-service-tier = \"priority\"\ntheme = 1\n[other]\ndefault-service-tier = \"x\"\n[desktop]\n"
    );
    let standard = codex_config_toml_with_speed(content, &CodexAppSpeed::Standard);
    assert_eq!(standard, "[desktop]\ntheme = 1\n[other]\ndefault-service-tier = \"x\"\n[desktop]\n");
}
