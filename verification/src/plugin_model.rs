//! Data model for skills and plugin bundles, and the pure rules of their
//! discovery: id derivation, name deduplication, and the frontmatter of
//! skill files.  Directory scanning itself is file I/O and stays in the
//! application shell.

use vstd::prelude::*;
use crate::strutil::{str_eq, string_eq, is_prefix_of};

verus! {

/// The source of a skill.
#[derive(Clone, Debug)]
pub enum SkillSource {
    /// From the project's own skills or commands directory.
    Project,
    /// From the user's personal skills or commands directory.
    Personal,
    /// From an installed plugin.
    Plugin { name: String },
    /// From a legacy per-project plugins file.
    Legacy,
}

/// The type of a skill: how it is executed.
#[derive(Clone, Debug)]
pub enum SkillType {
    /// Inline prompt-based skill.
    Prompt { prompt: String },
    /// File-based skill that loads its prompt from a markdown file.
    File { path: String },
    /// Command-based skill that executes a shell command.
    Command { command: String, args: Vec<String> },
}

/// Configuration for a skill.
#[derive(Clone, Debug)]
pub struct SkillConfig {
    pub id: String,
    pub name: String,
    pub description: String,
    pub icon: Option<String>,
    pub skill_type: SkillType,
    /// Plugin this skill belongs to, if any.
    pub plugin_id: Option<String>,
    pub source: SkillSource,
    /// Path to the skill file.
    pub path: Option<String>,
    /// Hint shown during autocomplete.
    pub argument_hint: Option<String>,
    /// If true, the model will not auto-invoke this skill.
    pub disable_model_invocation: bool,
    /// If false, hidden from the menu (default true).
    pub user_invocable: bool,
    /// Tools that need no permission prompts.
    pub allowed_tools: Option<String>,
    /// Model override for this skill.
    pub model: Option<String>,
    /// Run context.
    pub context: Option<String>,
    /// Subagent type when forked.
    pub agent: Option<String>,
}

/// The source of a plugin bundle.
#[derive(Clone, Debug)]
pub enum PluginSource {
    /// Built into the supervisor.
    Builtin,
    /// Defined in the project's legacy plugins file.
    Project,
    /// User-installed plugin with a manifest.
    Installed,
    /// Installed from a marketplace.
    Marketplace { url: String },
    /// Installed via the assistant CLI.
    CliInstalled,
}

/// Hook configuration.
#[derive(Clone, Debug)]
pub struct HookConfig {
    pub event: String,
    pub command: String,
    pub args: Vec<String>,
}

/// Configuration for a plugin bundle.
#[derive(Clone, Debug)]
pub struct PluginConfig {
    pub id: String,
    pub name: String,
    pub version: String,
    pub description: String,
    pub icon: Option<String>,
    pub plugin_source: PluginSource,
    /// CLI plugin id (`name@marketplace`) for enabled-plugin configs.
    pub cli_id: Option<String>,
    pub skills: Vec<String>,
    pub mcp_servers: Vec<String>,
    pub hooks: Vec<HookConfig>,
    pub enabled_by_default: bool,
    pub path: Option<String>,
}

/// The default for flags that are on unless switched off.
pub fn default_true() -> (r: bool)
    ensures
        r,
{
    true
}

/// Combined result of plugin discovery for a project.
#[derive(Clone, Debug)]
pub struct ProjectPlugins {
    pub skills: Vec<SkillConfig>,
    pub plugins: Vec<PluginConfig>,
}

impl Default for ProjectPlugins {
    /// No skills, no plugins.
    fn default() -> (r: Self)
        ensures
            r.skills@.len() == 0 && r.plugins@.len() == 0,
    {
        ProjectPlugins { skills: Vec::new(), plugins: Vec::new() }
    }
}

/// Per-session enabled plugins, skills and servers.
#[derive(Clone, Debug)]
pub struct BranchConfig {
    pub enabled_plugins: Vec<String>,
    pub enabled_skills: Vec<String>,
    pub enabled_mcp_servers: Vec<String>,
}

/// An installed plugin's manifest.
#[derive(Clone, Debug)]
pub struct PluginManifest {
    pub name: String,
    pub version: Option<String>,
    pub description: Option<String>,
    pub icon: Option<String>,
    /// Marketplace id, when installed from one.
    pub marketplace_id: Option<String>,
    /// Plugin id within the marketplace.
    pub plugin_id: Option<String>,
}

/// The short marketplace name the CLI uses for a marketplace id: the
/// official catalog has a fixed short name, every other id is its own.
pub open spec fn marketplace_short_spec(id: Seq<char>) -> Seq<char> {
    if id == "official-plugins-catalog"@ {
        "plugins-official"@
    } else {
        id
    }
}

/// Converts a marketplace id to the short form used by the CLI.
pub fn marketplace_id_to_short(marketplace_id: &str) -> (r: &str)
    ensures
        r@ == marketplace_short_spec(marketplace_id@),
{
    if str_eq(marketplace_id, "official-plugins-catalog") {
        "plugins-official"
    } else {
        marketplace_id
    }
}

/// Derives the CLI plugin id from a manifest: `plugin@marketplace-short`,
/// with the directory name standing in for a missing plugin id; nothing
/// without a marketplace id.
pub fn derive_cli_id_from_manifest(manifest: &PluginManifest, dir_name: &str) -> (r: Option<
    String,
>)
    ensures
        manifest.marketplace_id is None ==> r is None,
        manifest.marketplace_id is Some ==> r is Some && r->0@ == (match manifest.plugin_id {
            Option::Some(p) => p@,
            Option::None => dir_name@,
        }) + "@"@ + marketplace_short_spec(manifest.marketplace_id->0@),
{
    match &manifest.marketplace_id {
        None => None,
        Some(mid) => {
            let mut r: String = match &manifest.plugin_id {
                Some(p) => p.clone(),
                None => dir_name.to_owned(),
            };
            r.append("@");
            let short = marketplace_id_to_short(mid.as_str());
            r.append(short);
            Some(r)
        },
    }
}

/// The id prefix for a skill source.
pub fn source_prefix(source: &SkillSource) -> (r: &'static str)
    ensures
        source is Project ==> r@ == "project"@,
        source is Personal ==> r@ == "personal"@,
        source is Plugin ==> r@ == "plugin"@,
        source is Legacy ==> r@ == "legacy"@,
{
    match source {
        SkillSource::Project => "project",
        SkillSource::Personal => "personal",
        SkillSource::Plugin { .. } => "plugin",
        SkillSource::Legacy => "legacy",
    }
}

/// The names of a skill list.
pub open spec fn skill_names(s: Seq<SkillConfig>) -> Seq<Seq<char>> {
    s.map_values(|c: SkillConfig| c.name@)
}

/// Deduplicates skills by name, keeping the first occurrence: skills
/// arrive in priority order (project before personal before plugin
/// before legacy), so the highest-priority definition wins.
pub fn deduplicate_skills(skills: Vec<SkillConfig>) -> (r: Vec<SkillConfig>)
    ensures
        // no name repeats
        forall|a: int, b: int|
            0 <= a < b < r@.len() ==> (#[trigger] r@[a]).name@ != (#[trigger] r@[b]).name@,
        // everything kept is one of the inputs
        forall|j: int| 0 <= j < r@.len() ==> skills@.contains(#[trigger] r@[j]),
        // every input name survives
        forall|k: int|
            0 <= k < skills@.len() ==> skill_names(r@).contains(
                (#[trigger] skills@[k]).name@,
            ),
{
    let ghost orig = skills@;
    let mut remaining = skills;
    let mut r: Vec<SkillConfig> = Vec::new();
    let ghost processed: int = 0;
    loop
        invariant
            0 <= processed <= orig.len(),
            orig == skills@,
            remaining@ == orig.skip(processed),
            forall|a: int, b: int|
                0 <= a < b < r@.len() ==> (#[trigger] r@[a]).name@ != (#[trigger] r@[b]).name@,
            forall|j: int| 0 <= j < r@.len() ==> skills@.contains(#[trigger] r@[j]),
            forall|k: int|
                0 <= k < processed ==> skill_names(r@).contains((#[trigger] orig[k]).name@),
        decreases orig.len() - processed,
    {
        if remaining.len() == 0 {
            proof {
                assert(processed == orig.len());
            }
            return r;
        }
        let skill = remaining.remove(0);
        proof {
            assert(orig.skip(processed).drop_first() =~= orig.skip(processed + 1));
            assert(skill == orig.skip(processed)[0]);
            assert(skill == orig[processed]);
        }
        let ghost old_r = r@;
        let mut seen = false;
        let mut j: usize = 0;
        while j < r.len() && !seen
            invariant
                j <= r@.len(),
                r@ == old_r,
                skill == orig[processed],
                0 <= processed < orig.len(),
                orig == skills@,
                !seen ==> forall|k: int| 0 <= k < j ==> (#[trigger] r@[k]).name@ != skill.name@,
                seen ==> skill_names(r@).contains(skill.name@),
            decreases r@.len() - j,
        {
            if string_eq(&r[j].name, &skill.name) {
                proof {
                    assert(skill_names(r@)[j as int] == skill.name@);
                }
                seen = true;
                j = r.len();
            } else {
                j += 1;
            }
        }
        if !seen {
            r.push(skill);
            proof {
                assert(r@ =~= old_r.push(skill));
                assert(r@[r@.len() - 1] == skills@[processed]);
                assert(skills@.contains(skill));
                assert(forall|j: int| 0 <= j < old_r.len() ==> r@[j] == old_r[j]);
                assert(skill_names(r@)[r@.len() - 1] == skill.name@);
                assert(forall|k: int|
                    0 <= k < processed ==> skill_names(old_r).contains(
                        (#[trigger] orig[k]).name@,
                    ));
                assert forall|k: int| 0 <= k <= processed implies skill_names(r@).contains(
                    (#[trigger] orig[k]).name@,
                ) by {
                    if k < processed {
                        let w = choose|w: int|
                            0 <= w < skill_names(old_r).len() && skill_names(old_r)[w] == orig[
                            k].name@;
                        assert(skill_names(r@)[w] == orig[k].name@);
                    } else {
                        assert(skill_names(r@)[r@.len() - 1] == orig[k].name@);
                    }
                }
            }
        } else {
            proof {
                assert(skill_names(r@).contains(orig[processed].name@));
            }
        }
        proof {
            processed = processed + 1;
        }
    }
}

/// Parsed frontmatter of a skill or command markdown file.
#[derive(Clone, Debug)]
pub struct Frontmatter {
    pub name: Option<String>,
    pub description: Option<String>,
    pub argument_hint: Option<String>,
    pub disable_model_invocation: bool,
    pub user_invocable: bool,
    pub allowed_tools: Option<String>,
    pub model: Option<String>,
    pub context: Option<String>,
    pub agent: Option<String>,
}

impl Frontmatter {
    /// The all-absent frontmatter; skills are user-invocable by default.
    pub fn empty() -> (r: Frontmatter)
        ensures
            r.name is None && r.description is None && r.argument_hint is None
                && !r.disable_model_invocation && r.user_invocable && r.allowed_tools is None
                && r.model is None && r.context is None && r.agent is None,
    {
        Frontmatter {
            name: None,
            description: None,
            argument_hint: None,
            disable_model_invocation: false,
            user_invocable: true,
            allowed_tools: None,
            model: None,
            context: None,
            agent: None,
        }
    }

    /// Parses the frontmatter block of a markdown file: the `key: value`
    /// lines between an opening `---` and the next line starting `---`,
    /// with comments and blank lines skipped and quoted values unquoted.
    /// Content that does not open with `---` has no frontmatter: every
    /// field keeps its default.
    pub fn parse(content: &str) -> (r: Frontmatter)
        ensures
            !is_prefix_of("---"@, crate::strutil::trim_spec(content@)) ==> r.name is None
                && r.description is None && r.argument_hint is None
                && !r.disable_model_invocation && r.user_invocable && r.allowed_tools is None
                && r.model is None && r.context is None && r.agent is None,
    {
        let trimmed = crate::strutil::trim_ascii(content);
        let t = trimmed.as_str();
        if !crate::strutil::starts_with(t, "---") {
            return Frontmatter::empty();
        }
        let mut fm = Frontmatter::empty();
        // scan the block line by line, from the line after the opening
        // marker to the closing marker
        let lines = crate::strutil::split_nonempty_lines(t);
        let mut i: usize = 1;
        while i < lines.len()
            decreases lines.len() - i,
        {
            let line_owned = crate::strutil::trim_ascii(lines[i].as_str());
            let line = line_owned.as_str();
            if crate::strutil::starts_with(line, "---") {
                break ;
            }
            if crate::strutil::starts_with(line, "#") {
                i += 1;
                continue ;
            }
            match split_key_value(line) {
                Some((key, value)) => {
                    let k = key.as_str();
                    if str_eq(k, "name") {
                        fm.name = Some(value);
                    } else if str_eq(k, "description") {
                        fm.description = Some(value);
                    } else if str_eq(k, "argument-hint") {
                        fm.argument_hint = Some(value);
                    } else if str_eq(k, "disable-model-invocation") {
                        fm.disable_model_invocation = str_eq(value.as_str(), "true");
                    } else if str_eq(k, "user-invocable") {
                        fm.user_invocable = !str_eq(value.as_str(), "false");
                    } else if str_eq(k, "allowed-tools") {
                        fm.allowed_tools = Some(value);
                    } else if str_eq(k, "model") {
                        fm.model = Some(value);
                    } else if str_eq(k, "context") {
                        fm.context = Some(value);
                    } else if str_eq(k, "agent") {
                        fm.agent = Some(value);
                    }
                },
                None => {},
            }
            i += 1;
        }
        fm
    }
}

/// A frontmatter key before `:` and the trimmed, unquoted value after.
fn split_key_value(line: &str) -> (r: Option<(String, String)>)
{
    let n = line.unicode_len();
    let mut i: usize = 0;
    while i < n && line.get_char(i) != ':'
        invariant
            i <= n,
            n == line@.len(),
        decreases n - i,
    {
        i += 1;
    }
    if i >= n {
        return None;
    }
    let key_raw = line.substring_char(0, i).to_owned();
    let key = crate::strutil::trim_ascii(key_raw.as_str());
    let value_raw = line.substring_char(i + 1, n).to_owned();
    let value_trimmed = crate::strutil::trim_ascii(value_raw.as_str());
    let value = strip_quotes(value_trimmed.as_str());
    Some((key, value))
}

/// The value with one layer of matching double or single quotes removed.
fn strip_quotes(s: &str) -> (r: String)
{
    let n = s.unicode_len();
    if n >= 2 {
        let first = s.get_char(0);
        let last = s.get_char(n - 1);
        if (first == '"' && last == '"') || (first == '\'' && last == '\'') {
            return s.substring_char(1, n - 1).to_owned();
        }
    }
    s.to_owned()
}

} // verus!
