//! Tests for font classification, plugin id rules, skill deduplication,
//! frontmatter parsing, and the git model helpers.

use maestro_core::fonts::{is_likely_monospace, is_nerd_font};
use maestro_core::gitmodel::{validate_repo_path, Git, GitOutput};
use maestro_core::plugin_model::{
    deduplicate_skills, derive_cli_id_from_manifest, marketplace_id_to_short, source_prefix,
    Frontmatter, PluginManifest, SkillConfig, SkillSource, SkillType,
};

#[test]
fn test_is_nerd_font() {
    assert!(is_nerd_font("JetBrainsMono Nerd Font"));
    assert!(is_nerd_font("FiraCode NF"));
    assert!(is_nerd_font("Hack Nerd Font Mono"));
    assert!(!is_nerd_font("JetBrains Mono"));
    assert!(!is_nerd_font("Fira Code"));
}

#[test]
fn test_is_likely_monospace() {
    assert!(is_likely_monospace("JetBrains Mono"));
    assert!(is_likely_monospace("Fira Code"));
    assert!(is_likely_monospace("Consolas"));
    assert!(is_likely_monospace("Courier New"));
    assert!(is_likely_monospace("Monaco"));
    assert!(!is_likely_monospace("Arial"));
    assert!(!is_likely_monospace("Times New Roman"));
}

#[test]
fn test_marketplace_id_to_short() {
    assert_eq!(marketplace_id_to_short("official-plugins-catalog"), "plugins-official");
    assert_eq!(marketplace_id_to_short("custom-marketplace"), "custom-marketplace");
}

#[test]
fn test_derive_cli_id_from_manifest() {
    let manifest = PluginManifest {
        name: "frontend-design".to_string(),
        version: None,
        description: None,
        icon: None,
        marketplace_id: Some("official-plugins-catalog".to_string()),
        plugin_id: Some("frontend-design".to_string()),
    };
    assert_eq!(
        derive_cli_id_from_manifest(&manifest, "ignored-dir").unwrap(),
        "frontend-design@plugins-official"
    );

    let no_market = PluginManifest { marketplace_id: None, ..manifest.clone() };
    assert!(derive_cli_id_from_manifest(&no_market, "dir").is_none());

    let no_plugin_id = PluginManifest { plugin_id: None, ..manifest };
    assert_eq!(
        derive_cli_id_from_manifest(&no_plugin_id, "dir-name").unwrap(),
        "dir-name@plugins-official"
    );
}

#[test]
fn test_source_prefix_values() {
    assert_eq!(source_prefix(&SkillSource::Project), "project");
    assert_eq!(source_prefix(&SkillSource::Personal), "personal");
    assert_eq!(source_prefix(&SkillSource::Plugin { name: "x".to_string() }), "plugin");
    assert_eq!(source_prefix(&SkillSource::Legacy), "legacy");
}

fn skill(id: &str, name: &str) -> SkillConfig {
    SkillConfig {
        id: id.to_string(),
        name: name.to_string(),
        description: String::new(),
        icon: None,
        skill_type: SkillType::Prompt { prompt: "p".to_string() },
        plugin_id: None,
        source: SkillSource::Project,
        path: None,
        argument_hint: None,
        disable_model_invocation: false,
        user_invocable: true,
        allowed_tools: None,
        model: None,
        context: None,
        agent: None,
    }
}

#[test]
fn test_deduplicate_skills_keeps_first() {
    let skills = vec![
        skill("project:review", "review"),
        skill("personal:review", "review"),
        skill("personal:deploy", "deploy"),
    ];
    let deduped = deduplicate_skills(skills);
    assert_eq!(deduped.len(), 2);
    assert_eq!(deduped[0].id, "project:review", "highest-priority definition wins");
    assert_eq!(deduped[1].id, "personal:deploy");
}

#[test]
fn test_frontmatter_parse_fields() {
    let content = "---\nname: my-skill\ndescription: \"does things\"\nargument-hint: [issue]\nuser-invocable: false\ndisable-model-invocation: true\n---\nBody text\n";
    let fm = Frontmatter::parse(content);
    assert_eq!(fm.name.as_deref(), Some("my-skill"));
    assert_eq!(fm.description.as_deref(), Some("does things"));
    assert_eq!(fm.argument_hint.as_deref(), Some("[issue]"));
    assert!(!fm.user_invocable);
    assert!(fm.disable_model_invocation);
}

#[test]
fn test_frontmatter_parse_without_block() {
    let fm = Frontmatter::parse("Just a document.\nNo frontmatter here.\n");
    assert!(fm.name.is_none());
    assert!(fm.description.is_none());
    assert!(fm.user_invocable, "skills are invocable by default");
    assert!(!fm.disable_model_invocation);
}

#[test]
fn test_git_output_helpers() {
    let out = GitOutput { stdout: " main\n\n feat \n".to_string(), stderr: String::new() };
    assert_eq!(out.lines(), vec![" main".to_string(), " feat ".to_string()]);
    assert_eq!(out.trimmed(), "main\n\n feat");
    let git = Git::new("/repo".to_string());
    assert_eq!(git.repo_path(), "/repo");
}

#[test]
fn test_validate_repo_path() {
    assert!(validate_repo_path("/repo").is_ok());
    assert!(validate_repo_path("").is_err());
}
