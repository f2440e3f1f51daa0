//! Data model for MCP (tool-protocol) server configuration entries, as
//! read from and written to per-directory config files.

use vstd::prelude::*;
use crate::strutil::str_eq;

verus! {

/// Where an MCP server entry was discovered.
#[derive(Clone, Copy, Debug, PartialEq, Eq, Structural)]
pub enum McpServerSource {
    /// From the project's own config file.
    Project,
    /// From the user-scope configuration.
    User,
    /// From the project-local scope of the user configuration.
    Local,
    /// Custom server defined in the supervisor.
    Custom,
}

/// The default source for entries parsed from a project config file.
pub fn default_project_source() -> (r: McpServerSource)
    ensures
        r == McpServerSource::Project,
{
    McpServerSource::Project
}

/// Connection details of an MCP server.
#[derive(Clone, Debug)]
pub enum McpServerType {
    /// Standard-I/O based server: command, arguments, environment.
    Stdio { command: String, args: Vec<String>, env: Vec<(String, String)> },
    /// HTTP-based server.
    Http { url: String },
}

/// A named MCP server configuration.
#[derive(Clone, Debug)]
pub struct McpServerConfig {
    /// Server name (the key in the config file's server map).
    pub name: String,
    /// Server type and connection details.
    pub server_type: McpServerType,
    /// Where this server was discovered.
    pub source: McpServerSource,
}

/// The mathematical shape of a server's connection details.
pub enum ServerTypeView {
    Stdio { command: Seq<char>, args: Seq<Seq<char>>, env: Seq<(Seq<char>, Seq<char>)> },
    Http { url: Seq<char> },
}

/// The mathematical shape of a named server configuration.
pub struct ServerConfigView {
    pub name: Seq<char>,
    pub server_type: ServerTypeView,
    pub source: McpServerSource,
}

/// The view of a pair list of strings.
pub open spec fn pairs_view(v: Seq<(String, String)>) -> Seq<(Seq<char>, Seq<char>)> {
    v.map_values(|p: (String, String)| (p.0@, p.1@))
}

/// The view of connection details.
pub open spec fn type_view(t: McpServerType) -> ServerTypeView {
    match t {
        McpServerType::Stdio { command, args, env } => ServerTypeView::Stdio {
            command: command@,
            args: args@.map_values(|s: String| s@),
            env: pairs_view(env@),
        },
        McpServerType::Http { url } => ServerTypeView::Http { url: url@ },
    }
}

/// The view of a named configuration.
pub open spec fn config_view(c: McpServerConfig) -> ServerConfigView {
    ServerConfigView { name: c.name@, server_type: type_view(c.server_type), source: c.source }
}

/// The view of a named configuration, as a function value.
pub open spec fn config_view_fn() -> spec_fn(McpServerConfig) -> ServerConfigView {
    |c: McpServerConfig| config_view(c)
}

/// A raw entry of a config file's server map, before validation.
#[derive(Clone, Debug)]
pub struct McpServerEntry {
    /// The declared type: `stdio` or `http`.
    pub server_type: String,
    pub command: Option<String>,
    pub args: Option<Vec<String>>,
    pub env: Option<Vec<(String, String)>>,
    pub url: Option<String>,
}

/// The validated configuration a raw entry converts to, if any: `stdio`
/// entries need a command, `http` entries a url; anything else is
/// dropped.  Missing arguments and environment default to empty.
pub open spec fn entry_conversion(
    name: Seq<char>,
    e: McpServerEntry,
    source: McpServerSource,
) -> Option<ServerConfigView> {
    if e.server_type@ == "stdio"@ {
        match e.command {
            Option::Some(command) => Some(
                ServerConfigView {
                    name,
                    server_type: ServerTypeView::Stdio {
                        command: command@,
                        args: match e.args {
                            Option::Some(a) => a@.map_values(|s: String| s@),
                            Option::None => Seq::<Seq<char>>::empty(),
                        },
                        env: match e.env {
                            Option::Some(v) => pairs_view(v@),
                            Option::None => Seq::<(Seq<char>, Seq<char>)>::empty(),
                        },
                    },
                    source,
                },
            ),
            Option::None => None,
        }
    } else if e.server_type@ == "http"@ {
        match e.url {
            Option::Some(url) => Some(
                ServerConfigView { name, server_type: ServerTypeView::Http { url: url@ }, source },
            ),
            Option::None => None,
        }
    } else {
        None
    }
}

/// The configurations that a list of raw entries converts to, in order.
pub open spec fn parse_entries_model(
    s: Seq<(String, McpServerEntry)>,
    source: McpServerSource,
) -> Seq<ServerConfigView>
    decreases s.len(),
{
    if s.len() == 0 {
        Seq::<ServerConfigView>::empty()
    } else {
        let rest = parse_entries_model(s.drop_first(), source);
        match entry_conversion(s[0].0@, s[0].1, source) {
            Option::Some(c) => seq![c] + rest,
            Option::None => rest,
        }
    }
}

/// Converts the raw entries of a server map into validated
/// configurations, dropping entries of unknown type or with missing
/// fields.
pub fn parse_mcp_entries(entries: Vec<(String, McpServerEntry)>, source: McpServerSource) -> (r:
    Vec<McpServerConfig>)
    ensures
        r@.map_values(config_view_fn()) == parse_entries_model(entries@, source),
{
    let ghost orig = entries@;
    let mut remaining = entries;
    let mut r: Vec<McpServerConfig> = Vec::new();
    let ghost cv = config_view_fn();
    proof {
        assert(orig.skip(0) =~= orig);
        assert(r@.map_values(cv) =~= Seq::<ServerConfigView>::empty());
    }
    let ghost processed: int = 0;
    loop
        invariant
            0 <= processed <= orig.len(),
            orig == entries@,
            remaining@ == orig.skip(processed),
            parse_entries_model(orig, source) == r@.map_values(cv) + parse_entries_model(
                orig.skip(processed),
                source,
            ),
            cv == config_view_fn(),
        decreases orig.len() - processed,
    {
        if remaining.len() == 0 {
            proof {
                assert(processed == orig.len());
                assert(parse_entries_model(orig, source) =~= r@.map_values(cv));
            }
            return r;
        }
        let ghost suffix = orig.skip(processed);
        let (name, entry) = remaining.remove(0);
        proof {
            assert(suffix.drop_first() =~= orig.skip(processed + 1));
            assert((name, entry) == suffix[0]);
        }
        let ghost before = r@.map_values(cv);
        if str_eq(entry.server_type.as_str(), "stdio") {
            match entry.command {
                Some(command) => {
                    let ghost e0 = suffix[0].1;
                    let args = match entry.args {
                        Some(a) => a,
                        None => Vec::new(),
                    };
                    let env = match entry.env {
                        Some(v) => v,
                        None => Vec::new(),
                    };
                    let config = McpServerConfig {
                        name,
                        server_type: McpServerType::Stdio { command, args, env },
                        source,
                    };
                    proof {
                        if e0.args is None {
                            assert(args@.map_values(|s: String| s@) =~= Seq::<Seq<char>>::empty());
                        }
                        if e0.env is None {
                            assert(pairs_view(env@) =~= Seq::<(Seq<char>, Seq<char>)>::empty());
                        }
                        assert(entry_conversion(suffix[0].0@, suffix[0].1, source) == Some(
                            config_view(config),
                        ));
                    }
                    r.push(config);
                    proof {
                        assert(r@.map_values(cv) =~= before.push(config_view(config)));
                        assert(before.push(config_view(config)) =~= before + seq![
                            config_view(config),
                        ]);
                    }
                },
                None => {
                    proof {
                        assert(entry_conversion(suffix[0].0@, suffix[0].1, source) is None);
                    }
                },
            }
        } else if str_eq(entry.server_type.as_str(), "http") {
            match entry.url {
                Some(url) => {
                    let config = McpServerConfig {
                        name,
                        server_type: McpServerType::Http { url },
                        source,
                    };
                    proof {
                        assert(entry_conversion(suffix[0].0@, suffix[0].1, source) == Some(
                            config_view(config),
                        ));
                    }
                    r.push(config);
                    proof {
                        assert(r@.map_values(cv) =~= before.push(config_view(config)));
                        assert(before.push(config_view(config)) =~= before + seq![
                            config_view(config),
                        ]);
                    }
                },
                None => {
                    proof {
                        assert(entry_conversion(suffix[0].0@, suffix[0].1, source) is None);
                    }
                },
            }
        } else {
            proof {
                assert(entry_conversion(suffix[0].0@, suffix[0].1, source) is None);
            }
        }
        proof {
            assert(parse_entries_model(orig, source) =~= r@.map_values(cv)
                + parse_entries_model(orig.skip(processed + 1), source));
            processed = processed + 1;
        }
    }
}

/// A user-defined custom MCP server.
#[derive(Clone, Debug)]
pub struct McpCustomServer {
    /// Unique identifier for the custom server.
    pub id: String,
    /// Display name for the server.
    pub name: String,
    /// Command to run.
    pub command: String,
    /// Arguments to pass to the command.
    pub args: Vec<String>,
    /// Environment variables for the server process.
    pub env: Vec<(String, String)>,
    /// Working directory for the server process.
    pub working_directory: Option<String>,
    /// Whether this server is enabled by default.
    pub is_enabled: bool,
    /// ISO timestamp of when the server was created.
    pub created_at: String,
}

/// Status server information returned to the frontend.
#[derive(Clone, Debug)]
pub struct StatusServerInfo {
    pub port: u16,
    pub status_url: String,
    pub instance_id: String,
    /// Path to the sidecar binary, if found.
    pub mcp_binary_path: Option<String>,
}

} // verus!
