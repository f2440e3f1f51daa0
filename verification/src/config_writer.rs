//! Atomic per-directory config merges.
//!
//! Several sessions may share one working directory, and each must
//! register its tool-server entry in the same JSON config file without
//! clobbering the user's own entries.  The application shell serializes
//! writers per directory and performs the temp-file-rename; this module
//! computes the new document: it removes every supervisor-managed entry,
//! keeps user entries untouched, and adds the session's entry.  The JSON
//! encoding itself is done by an outside library behind trusted wrappers;
//! the merge logic on the parsed entries is verified, and the laws at the
//! bottom state the preservation and round-trip properties.

use vstd::prelude::*;
use crate::strutil::{str_eq, starts_with, is_prefix_of, string_eq_str};
use crate::mcp_model::{McpServerConfig, McpServerType, McpCustomServer};

verus! {

/// The JSON value type of the outside library; opaque to the proofs,
/// carried through the merge untouched.
#[verifier::external_type_specification]
#[verifier::external_body]
pub struct ExJsonValue(serde_json::Value);

/// The entries a config document parses to: the top-level `mcpServers`
/// object's entries in the map's key order, none when the key is absent,
/// and nothing at all for a malformed document.  The parse is a function
/// of the text alone; this name stands for its result.
pub uninterp spec fn parsed_entries_of(doc: Seq<char>) -> Option<
    Seq<(String, serde_json::Value)>,
>;

/// Relies on serde_json::from_str and Value::as_object: parses the
/// document and hands back the entries of its top-level `mcpServers`
/// object, in the map's key order; an absent `mcpServers` key gives no
/// entries; a malformed document is an error.
#[verifier::external_body]
fn parse_server_entries(content: &str) -> (r: Result<Vec<(String, serde_json::Value)>, String>)
    ensures
        r is Ok <==> parsed_entries_of(content@) is Some,
        r matches Ok(v) ==> Some(v@) == parsed_entries_of(content@),
{
    let v: serde_json::Value = match serde_json::from_str(content) {
        Ok(v) => v,
        Err(e) => {
            return Err(e.to_string());
        },
    };
    match v.get("mcpServers").and_then(|s| s.as_object()) {
        Some(obj) => Ok(obj.iter().map(|(k, val)| (k.clone(), val.clone())).collect()),
        None => Ok(Vec::new()),
    }
}

/// The JSON string value for a character sequence.
pub uninterp spec fn json_text_of(s: Seq<char>) -> serde_json::Value;

/// The JSON array of string values for a sequence of strings.
pub uninterp spec fn json_text_array_of(items: Seq<Seq<char>>) -> serde_json::Value;

/// The JSON object of string values for named strings.
pub uninterp spec fn json_text_map_of(entries: Seq<(Seq<char>, Seq<char>)>) -> serde_json::Value;

/// The JSON object for named values.
pub uninterp spec fn json_object_of(entries: Seq<(Seq<char>, serde_json::Value)>) -> serde_json::Value;

/// The pretty-printed document for a JSON value.
pub uninterp spec fn json_pretty_of(v: serde_json::Value) -> Seq<char>;

/// The views of a list of strings.
pub open spec fn strs_view(v: Seq<String>) -> Seq<Seq<char>> {
    v.map_values(|s: String| s@)
}

/// The views of a list of string pairs.
pub open spec fn str_pairs_view(v: Seq<(String, String)>) -> Seq<(Seq<char>, Seq<char>)> {
    v.map_values(|p: (String, String)| (p.0@, p.1@))
}

/// The name views of a list of entries, values carried along.
pub open spec fn entry_views(v: Seq<(String, serde_json::Value)>) -> Seq<
    (Seq<char>, serde_json::Value),
> {
    v.map_values(|e: (String, serde_json::Value)| (e.0@, e.1))
}

/// Relies on serde_json::Value::from: a JSON string value.
#[verifier::external_body]
fn json_text(s: &str) -> (r: serde_json::Value)
    ensures
        r == json_text_of(s@),
{
    serde_json::Value::from(s)
}

/// Relies on serde_json::Value::Array: a JSON array of string values.
#[verifier::external_body]
fn json_text_array(items: &Vec<String>) -> (r: serde_json::Value)
    ensures
        r == json_text_array_of(strs_view(items@)),
{
    serde_json::Value::Array(items.iter().map(|a| serde_json::Value::from(a.as_str())).collect())
}

/// Relies on serde_json::Map: a JSON object of string values.
#[verifier::external_body]
fn json_text_map(entries: &Vec<(String, String)>) -> (r: serde_json::Value)
    ensures
        r == json_text_map_of(str_pairs_view(entries@)),
{
    let mut m = serde_json::Map::new();
    for (k, v) in entries.iter() {
        m.insert(k.clone(), serde_json::Value::from(v.as_str()));
    }
    serde_json::Value::Object(m)
}

/// Relies on serde_json::Map: the JSON object holding the named values
/// (the map orders its keys itself).
#[verifier::external_body]
fn json_object(entries: Vec<(String, serde_json::Value)>) -> (r: serde_json::Value)
    ensures
        r == json_object_of(entry_views(entries@)),
{
    let mut m = serde_json::Map::new();
    for (k, v) in entries {
        m.insert(k, v);
    }
    serde_json::Value::Object(m)
}

/// Relies on serde_json::Map, as `json_object` but copying the entries.
#[verifier::external_body]
fn json_object_ref(entries: &Vec<(String, serde_json::Value)>) -> (r: serde_json::Value)
    ensures
        r == json_object_of(entry_views(entries@)),
{
    let mut m = serde_json::Map::new();
    for (k, v) in entries.iter() {
        m.insert(k.clone(), v.clone());
    }
    serde_json::Value::Object(m)
}

/// Relies on serde_json::to_string_pretty: renders a value as a document.
#[verifier::external_body]
fn json_to_string_pretty(v: &serde_json::Value) -> (r: Result<String, String>)
    ensures
        r matches Ok(out) ==> out@ == json_pretty_of(*v),
{
    serde_json::to_string_pretty(v).map_err(|e| e.to_string())
}

/// The rendered document for a set of server entries: one top-level
/// `mcpServers` object holding them.
pub open spec fn rendered_doc_of(entries: Seq<(Seq<char>, serde_json::Value)>) -> Seq<char> {
    json_pretty_of(json_object_of(seq![("mcpServers"@, json_object_of(entries))]))
}

/// Renders the entries as a document with one top-level `mcpServers`
/// object.
fn serialize_server_entries(entries: &Vec<(String, serde_json::Value)>) -> (r: Result<
    String,
    String,
>)
    ensures
        r matches Ok(out) ==> out@ == rendered_doc_of(entry_views(entries@)),
{
    let obj = json_object_ref(entries);
    let mut doc: Vec<(String, serde_json::Value)> = Vec::new();
    doc.push(("mcpServers".to_owned(), obj));
    proof {
        assert(entry_views(doc@) =~= seq![("mcpServers"@, json_object_of(entry_views(entries@)))]);
    }
    let v = json_object(doc);
    json_to_string_pretty(&v)
}

/// The sidecar's stdio entry value: command, no arguments, and the
/// session id, ingress URL and instance id in its environment.
pub open spec fn sidecar_entry_value(
    command: Seq<char>,
    session_id_text: Seq<char>,
    status_url: Seq<char>,
    instance_id: Seq<char>,
) -> serde_json::Value {
    json_object_of(
        seq![
            ("type"@, json_text_of("stdio"@)),
            ("command"@, json_text_of(command)),
            ("args"@, json_text_array_of(Seq::<Seq<char>>::empty())),
            (
                "env"@,
                json_text_map_of(
                    seq![
                        ("MAESTRO_SESSION_ID"@, session_id_text),
                        ("MAESTRO_STATUS_URL"@, status_url),
                        ("MAESTRO_INSTANCE_ID"@, instance_id),
                    ],
                ),
            ),
        ],
    )
}

/// Builds the sidecar's stdio entry.
fn make_sidecar_entry(
    command: &str,
    session_id_text: &str,
    status_url: &str,
    instance_id: &str,
) -> (r: serde_json::Value)
    ensures
        r == sidecar_entry_value(command@, session_id_text@, status_url@, instance_id@),
{
    let mut env: Vec<(String, String)> = Vec::new();
    env.push(("MAESTRO_SESSION_ID".to_owned(), session_id_text.to_owned()));
    env.push(("MAESTRO_STATUS_URL".to_owned(), status_url.to_owned()));
    env.push(("MAESTRO_INSTANCE_ID".to_owned(), instance_id.to_owned()));
    proof {
        assert(str_pairs_view(env@) =~= seq![
            ("MAESTRO_SESSION_ID"@, session_id_text@),
            ("MAESTRO_STATUS_URL"@, status_url@),
            ("MAESTRO_INSTANCE_ID"@, instance_id@),
        ]);
    }
    let empty_args: Vec<String> = Vec::new();
    let env_value = json_text_map(&env);
    let mut obj: Vec<(String, serde_json::Value)> = Vec::new();
    obj.push(("type".to_owned(), json_text("stdio")));
    obj.push(("command".to_owned(), json_text(command)));
    proof {
        assert(strs_view(empty_args@) =~= Seq::<Seq<char>>::empty());
    }
    obj.push(("args".to_owned(), json_text_array(&empty_args)));
    obj.push(("env".to_owned(), env_value));
    proof {
        assert(entry_views(obj@) =~= seq![
            ("type"@, json_text_of("stdio"@)),
            ("command"@, json_text_of(command@)),
            ("args"@, json_text_array_of(Seq::<Seq<char>>::empty())),
            ("env"@, json_text_map_of(str_pairs_view(env@))),
        ]);
    }
    json_object(obj)
}

/// A stdio server's entry value; the environment is present only when
/// nonempty.
pub open spec fn stdio_entry_value(
    command: Seq<char>,
    args: Seq<Seq<char>>,
    env: Seq<(Seq<char>, Seq<char>)>,
) -> serde_json::Value {
    if env.len() > 0 {
        json_object_of(
            seq![
                ("type"@, json_text_of("stdio"@)),
                ("command"@, json_text_of(command)),
                ("args"@, json_text_array_of(args)),
                ("env"@, json_text_map_of(env)),
            ],
        )
    } else {
        json_object_of(
            seq![
                ("type"@, json_text_of("stdio"@)),
                ("command"@, json_text_of(command)),
                ("args"@, json_text_array_of(args)),
            ],
        )
    }
}

/// A discovered or custom server's entry value.
pub open spec fn server_entry_value(t: McpServerType) -> serde_json::Value {
    match t {
        McpServerType::Stdio { command, args, env } => stdio_entry_value(
            command@,
            strs_view(args@),
            str_pairs_view(env@),
        ),
        McpServerType::Http { url } => json_object_of(
            seq![("type"@, json_text_of("http"@)), ("url"@, json_text_of(url@))],
        ),
    }
}

/// Builds a stdio entry from a command, its arguments and its
/// environment; the environment is written only when nonempty.
fn stdio_entry_json(command: &str, args: &Vec<String>, env: &Vec<(String, String)>) -> (r:
    serde_json::Value)
    ensures
        r == stdio_entry_value(command@, strs_view(args@), str_pairs_view(env@)),
{
    let mut obj: Vec<(String, serde_json::Value)> = Vec::new();
    obj.push(("type".to_owned(), json_text("stdio")));
    obj.push(("command".to_owned(), json_text(command)));
    obj.push(("args".to_owned(), json_text_array(args)));
    if env.len() > 0 {
        obj.push(("env".to_owned(), json_text_map(env)));
        proof {
            assert(entry_views(obj@) =~= seq![
                ("type"@, json_text_of("stdio"@)),
                ("command"@, json_text_of(command@)),
                ("args"@, json_text_array_of(strs_view(args@))),
                ("env"@, json_text_map_of(str_pairs_view(env@))),
            ]);
            assert(str_pairs_view(env@).len() == env@.len());
        }
    } else {
        proof {
            assert(entry_views(obj@) =~= seq![
                ("type"@, json_text_of("stdio"@)),
                ("command"@, json_text_of(command@)),
                ("args"@, json_text_array_of(strs_view(args@))),
            ]);
            assert(str_pairs_view(env@).len() == env@.len());
        }
    }
    json_object(obj)
}

/// Builds a discovered server's entry: `stdio` with command, args and
/// env, or `http` with url.
fn server_config_to_json(config: &McpServerConfig) -> (r: serde_json::Value)
    ensures
        r == server_entry_value(config.server_type),
{
    match &config.server_type {
        McpServerType::Stdio { command, args, env } => stdio_entry_json(
            command.as_str(),
            args,
            env,
        ),
        McpServerType::Http { url } => {
            let mut obj: Vec<(String, serde_json::Value)> = Vec::new();
            obj.push(("type".to_owned(), json_text("http")));
            obj.push(("url".to_owned(), json_text(url.as_str())));
            proof {
                assert(entry_views(obj@) =~= seq![
                    ("type"@, json_text_of("http"@)),
                    ("url"@, json_text_of(url@)),
                ]);
            }
            json_object(obj)
        },
    }
}

/// Builds a custom server's stdio entry.
fn custom_server_to_json(server: &McpCustomServer) -> (r: serde_json::Value)
    ensures
        r == stdio_entry_value(
            server.command@,
            strs_view(server.args@),
            str_pairs_view(server.env@),
        ),
{
    stdio_entry_json(server.command.as_str(), &server.args, &server.env)
}

/// A directory joined with a relative path below it.
pub open spec fn join_path(dir: Seq<char>, leaf: Seq<char>) -> Seq<char> {
    dir + "/"@ + leaf
}

/// The candidate produced from an optional directory, or nothing.
pub open spec fn opt_candidate(dir: Option<Seq<char>>, leaf: Seq<char>) -> Seq<Seq<char>> {
    match dir {
        Option::Some(d) => seq![join_path(d, leaf)],
        Option::None => Seq::<Seq<char>>::empty(),
    }
}

/// The grandparent directory of a path, if both levels exist.
pub open spec fn parent2_of(p: Seq<char>) -> Option<Seq<char>> {
    match crate::strutil::parent_of(p) {
        Option::Some(d) => crate::strutil::parent_of(d),
        Option::None => None,
    }
}

/// The fourth ancestor directory of a path, if all levels exist.
pub open spec fn parent4_of(p: Seq<char>) -> Option<Seq<char>> {
    match parent2_of(p) {
        Option::Some(d) => parent2_of(d),
        Option::None => None,
    }
}

/// The ordered places the sidecar binary is looked for: next to the
/// executable; the `Resources` sibling of the executable's directory
/// (application bundles); the build-profile siblings `release` and
/// `debug` (development); the sidecar's own build directories under the
/// project root; then the per-platform application-data directories.
pub open spec fn sidecar_candidates_spec(
    exe_path: Option<Seq<char>>,
    data_dir: Option<Seq<char>>,
    data_local_dir: Option<Seq<char>>,
) -> Seq<Seq<char>> {
    let p1 = match exe_path {
        Option::Some(e) => crate::strutil::parent_of(e),
        Option::None => None,
    };
    let p2 = match exe_path {
        Option::Some(e) => parent2_of(e),
        Option::None => None,
    };
    let p4 = match exe_path {
        Option::Some(e) => parent4_of(e),
        Option::None => None,
    };
    opt_candidate(p1, "maestro-mcp-server"@) + opt_candidate(
        p2,
        "Resources/maestro-mcp-server"@,
    ) + opt_candidate(p2, "release/maestro-mcp-server"@) + opt_candidate(
        p2,
        "debug/maestro-mcp-server"@,
    ) + opt_candidate(p4, "maestro-mcp-server/target/release/maestro-mcp-server"@)
        + opt_candidate(p4, "maestro-mcp-server/target/debug/maestro-mcp-server"@)
        + opt_candidate(data_dir, "Maestro/maestro-mcp-server"@) + opt_candidate(
        data_local_dir,
        "maestro/maestro-mcp-server"@,
    )
}

/// Joins a directory and a relative path below it.
fn join_path_exec(dir: &str, leaf: &str) -> (r: String)
    ensures
        r@ == join_path(dir@, leaf@),
{
    let mut r = dir.to_owned();
    r.append("/");
    r.append(leaf);
    r
}

/// The ordered candidate paths for the sidecar binary, derived from the
/// executable path and the platform data directories.  The application
/// shell probes them in order and uses the first that exists.
pub fn sidecar_candidate_paths(
    exe_path: Option<&str>,
    data_dir: Option<&str>,
    data_local_dir: Option<&str>,
) -> (r: Vec<String>)
    ensures
        strs_view(r@) == sidecar_candidates_spec(
            match exe_path {
                Option::Some(e) => Some(e@),
                Option::None => None,
            },
            match data_dir {
                Option::Some(d) => Some(d@),
                Option::None => None,
            },
            match data_local_dir {
                Option::Some(d) => Some(d@),
                Option::None => None,
            },
        ),
{
    let p1: Option<String> = match exe_path {
        Some(e) => crate::strutil::parent_dir(e),
        None => None,
    };
    let p2: Option<String> = match &p1 {
        Some(d) => crate::strutil::parent_dir(d.as_str()),
        None => None,
    };
    let p3: Option<String> = match &p2 {
        Some(d) => crate::strutil::parent_dir(d.as_str()),
        None => None,
    };
    let p4: Option<String> = match &p3 {
        Some(d) => crate::strutil::parent_dir(d.as_str()),
        None => None,
    };
    let ghost exe_v: Option<Seq<char>> = match exe_path {
        Option::Some(e) => Some(e@),
        Option::None => None,
    };
    proof {
        match exe_v {
            Option::Some(e) => {
                assert(match p2 {
                    Option::Some(ref d) => parent2_of(e) == Some(d@),
                    Option::None => parent2_of(e) is None,
                });
                assert(match p4 {
                    Option::Some(ref d) => parent4_of(e) == Some(d@),
                    Option::None => parent4_of(e) is None,
                });
            },
            Option::None => {},
        }
    }
    let mut r: Vec<String> = Vec::new();
    match &p1 {
        Some(d) => r.push(join_path_exec(d.as_str(), "maestro-mcp-server")),
        None => {},
    }
    match &p2 {
        Some(d) => {
            r.push(join_path_exec(d.as_str(), "Resources/maestro-mcp-server"));
            r.push(join_path_exec(d.as_str(), "release/maestro-mcp-server"));
            r.push(join_path_exec(d.as_str(), "debug/maestro-mcp-server"));
        },
        None => {},
    }
    match &p4 {
        Some(d) => {
            r.push(join_path_exec(d.as_str(), "maestro-mcp-server/target/release/maestro-mcp-server"));
            r.push(join_path_exec(d.as_str(), "maestro-mcp-server/target/debug/maestro-mcp-server"));
        },
        None => {},
    }
    match data_dir {
        Some(d) => r.push(join_path_exec(d, "Maestro/maestro-mcp-server")),
        None => {},
    }
    match data_local_dir {
        Some(d) => r.push(join_path_exec(d, "maestro/maestro-mcp-server")),
        None => {},
    }
    proof {
        assert(strs_view(r@) =~= sidecar_candidates_spec(
            exe_v,
            match data_dir {
                Option::Some(d) => Some(d@),
                Option::None => None,
            },
            match data_local_dir {
                Option::Some(d) => Some(d@),
                Option::None => None,
            },
        ));
    }
    r
}

/// True when a server name is supervisor-managed and is rewritten or
/// removed on every write: the fixed entry name, the per-session legacy
/// names, any legacy `maestro-` name, and the legacy bare name.
pub open spec fn managed_name(name: Seq<char>) -> bool {
    ||| name == "maestro-status"@
    ||| is_prefix_of("maestro-status-"@, name)
    ||| (is_prefix_of("maestro-"@, name) && name != "maestro-status"@)
    ||| name == "maestro"@
}

/// Whether an entry name is supervisor-managed.
pub fn should_remove_server(name: &str) -> (r: bool)
    ensures
        r == managed_name(name@),
{
    if str_eq(name, "maestro-status") {
        return true;
    }
    if starts_with(name, "maestro-status-") {
        return true;
    }
    if starts_with(name, "maestro-") {
        return true;
    }
    str_eq(name, "maestro")
}

/// The names of a list of entries.
pub open spec fn names_of(entries: Seq<(String, serde_json::Value)>) -> Seq<Seq<char>> {
    entries.map_values(|e: (String, serde_json::Value)| e.0@)
}

/// The predicate selecting entries that survive a write that adds the
/// names `added`: not supervisor-managed and not overwritten.
pub open spec fn survives(added: Seq<Seq<char>>) -> spec_fn((String, serde_json::Value)) -> bool {
    |e: (String, serde_json::Value)| !managed_name(e.0@) && !added.contains(e.0@)
}

/// The merged document: the surviving entries of the existing document,
/// in order, followed by the new entries.
pub open spec fn merge_model(
    existing: Seq<(String, serde_json::Value)>,
    new_entries: Seq<(String, serde_json::Value)>,
) -> Seq<(String, serde_json::Value)> {
    existing.filter(survives(names_of(new_entries))) + new_entries
}

/// The predicate selecting entries that survive removal of the managed
/// set.
pub open spec fn not_managed() -> spec_fn((String, serde_json::Value)) -> bool {
    |e: (String, serde_json::Value)| !managed_name(e.0@)
}

/// The document after removing every managed entry, in order.
pub open spec fn remove_model(entries: Seq<(String, serde_json::Value)>) -> Seq<
    (String, serde_json::Value),
> {
    entries.filter(not_managed())
}

/// Whether `name` occurs in the (cloned) name list.
fn name_in(names: &Vec<String>, name: &str) -> (r: bool)
    ensures
        r == names@.map_values(|s: String| s@).contains(name@),
{
    let n = names.len();
    let mut i: usize = 0;
    while i < n
        invariant
            i <= n,
            n == names@.len(),
            forall|k: int| 0 <= k < i ==> names@[k]@ != name@,
        decreases n - i,
    {
        if string_eq_str(&names[i], name) {
            proof {
                assert(names@.map_values(|s: String| s@)[i as int] == name@);
            }
            return true;
        }
        i += 1;
    }
    proof {
        let nv = names@.map_values(|s: String| s@);
        if nv.contains(name@) {
            let w = choose|w: int| 0 <= w < nv.len() && #[trigger] nv[w] == name@;
            assert(names@[w]@ == name@);
        }
    }
    false
}

/// Merges new server entries into an existing document: every
/// supervisor-managed entry and every entry about to be overwritten is
/// dropped, user entries are kept in order and untouched, and the new
/// entries follow.
pub fn merge_server_lists(
    existing: Vec<(String, serde_json::Value)>,
    new_entries: Vec<(String, serde_json::Value)>,
) -> (r: Vec<(String, serde_json::Value)>)
    ensures
        r@ == merge_model(existing@, new_entries@),
{
    let ghost orig = existing@;
    let ghost added = names_of(new_entries@);
    // collect the new names once, for the overwrite check
    let mut new_names: Vec<String> = Vec::new();
    let mut i: usize = 0;
    while i < new_entries.len()
        invariant
            i <= new_entries@.len(),
            new_names@.len() == i,
            forall|k: int| 0 <= k < i ==> new_names@[k]@ == new_entries@[k].0@,
        decreases new_entries@.len() - i,
    {
        new_names.push(new_entries[i].0.clone());
        i += 1;
    }
    proof {
        assert(new_names@.map_values(|s: String| s@) =~= added);
    }
    let mut remaining = existing;
    let mut r: Vec<(String, serde_json::Value)> = Vec::new();
    let ghost processed: int = 0;
    proof {
        assert(orig.skip(0) =~= orig);
        assert(orig.take(0).filter(survives(added)) =~= Seq::<(String, serde_json::Value)>::empty());
    }
    while remaining.len() > 0
        invariant
            0 <= processed <= orig.len(),
            orig == existing@,
            added == names_of(new_entries@),
            remaining@ == orig.skip(processed),
            r@ == orig.take(processed).filter(survives(added)),
            new_names@.map_values(|s: String| s@) == added,
        decreases orig.len() - processed,
    {
        let entry = remaining.remove(0);
        proof {
            assert(orig.skip(processed).drop_first() =~= orig.skip(processed + 1));
            assert(entry == orig.skip(processed)[0]);
            assert(orig.take(processed + 1) =~= orig.take(processed).push(orig[processed]));
            orig.take(processed).lemma_filter_push(orig[processed], survives(added));
            assert(orig.take(processed + 1).filter(survives(added)) == orig.take(
                processed,
            ).push(orig[processed]).filter(survives(added)));
        }
        let managed = should_remove_server(entry.0.as_str());
        let overwritten = name_in(&new_names, entry.0.as_str());
        if !managed && !overwritten {
            r.push(entry);
        }
        proof {
            processed = processed + 1;
        }
    }
    proof {
        assert(processed == orig.len());
        assert(orig.take(orig.len() as int) =~= orig);
        assert(orig.take(orig.len() as int).filter(survives(added)) == orig.filter(
            survives(added),
        ));
    }
    // append the new entries
    let mut remaining_new = new_entries;
    let ghost all_new = remaining_new@;
    let ghost appended: int = 0;
    proof {
        assert(all_new.skip(0) =~= all_new);
        assert(r@ =~= orig.filter(survives(added)) + all_new.take(0));
    }
    while remaining_new.len() > 0
        invariant
            0 <= appended <= all_new.len(),
            remaining_new@ == all_new.skip(appended),
            r@ == orig.filter(survives(added)) + all_new.take(appended),
            orig == existing@,
            added == names_of(new_entries@),
            all_new == new_entries@,
        decreases all_new.len() - appended,
    {
        let entry = remaining_new.remove(0);
        proof {
            assert(all_new.skip(appended).drop_first() =~= all_new.skip(appended + 1));
            assert(entry == all_new.skip(appended)[0]);
        }
        r.push(entry);
        proof {
            assert(r@ =~= orig.filter(survives(added)) + all_new.take(appended + 1));
            appended = appended + 1;
        }
    }
    proof {
        assert(appended == all_new.len());
        assert(all_new.take(appended) =~= all_new);
        assert(r@ =~= merge_model(existing@, new_entries@));
    }
    r
}

/// Removes every supervisor-managed entry, keeping user entries in order
/// and untouched.
pub fn remove_managed_entries(entries: Vec<(String, serde_json::Value)>) -> (r: Vec<
    (String, serde_json::Value),
>)
    ensures
        r@ == remove_model(entries@),
{
    let ghost orig = entries@;
    let mut remaining = entries;
    let mut r: Vec<(String, serde_json::Value)> = Vec::new();
    let ghost processed: int = 0;
    proof {
        assert(orig.skip(0) =~= orig);
        assert(orig.take(0).filter(not_managed()) =~= Seq::<(String, serde_json::Value)>::empty());
    }
    while remaining.len() > 0
        invariant
            0 <= processed <= orig.len(),
            orig == entries@,
            remaining@ == orig.skip(processed),
            r@ == orig.take(processed).filter(not_managed()),
        decreases orig.len() - processed,
    {
        let entry = remaining.remove(0);
        proof {
            assert(orig.skip(processed).drop_first() =~= orig.skip(processed + 1));
            assert(entry == orig.skip(processed)[0]);
            assert(orig.take(processed + 1) =~= orig.take(processed).push(orig[processed]));
            orig.take(processed).lemma_filter_push(orig[processed], not_managed());
            assert(orig.take(processed + 1).filter(not_managed()) == orig.take(processed).push(
                orig[processed],
            ).filter(not_managed()));
        }
        if !should_remove_server(entry.0.as_str()) {
            r.push(entry);
        }
        proof {
            processed = processed + 1;
        }
    }
    proof {
        assert(processed == orig.len());
        assert(orig.take(processed) =~= orig);
    }
    r
}

/// The names of view-level entries.
pub open spec fn view_names(entries: Seq<(Seq<char>, serde_json::Value)>) -> Seq<Seq<char>> {
    entries.map_values(|e: (Seq<char>, serde_json::Value)| e.0)
}

/// View-level survivors of a write adding the names `added`.
pub open spec fn survives_views(added: Seq<Seq<char>>) -> spec_fn(
    (Seq<char>, serde_json::Value),
) -> bool {
    |e: (Seq<char>, serde_json::Value)| !managed_name(e.0) && !added.contains(e.0)
}

/// View-level unmanaged entries.
pub open spec fn not_managed_view() -> spec_fn((Seq<char>, serde_json::Value)) -> bool {
    |e: (Seq<char>, serde_json::Value)| !managed_name(e.0)
}

/// The view of a merged document: the surviving existing entries, then
/// the new entries.
pub open spec fn merged_views(
    existing: Seq<(Seq<char>, serde_json::Value)>,
    new_entries: Seq<(Seq<char>, serde_json::Value)>,
) -> Seq<(Seq<char>, serde_json::Value)> {
    existing.filter(survives_views(view_names(new_entries))) + new_entries
}

/// The view-level entries a session write adds: the sidecar entry (when
/// its binary was found), then the enabled discovered servers, then the
/// enabled custom servers.
pub open spec fn session_entry_views(
    sidecar_command: Option<Seq<char>>,
    session_id: u32,
    status_url: Seq<char>,
    instance_id: Seq<char>,
    enabled: Seq<McpServerConfig>,
    custom: Seq<McpCustomServer>,
) -> Seq<(Seq<char>, serde_json::Value)> {
    (match sidecar_command {
        Option::Some(c) => seq![
            (
                "maestro-status"@,
                sidecar_entry_value(
                    c,
                    crate::decimal::dec_str(session_id as nat),
                    status_url,
                    instance_id,
                ),
            ),
        ],
        Option::None => Seq::<(Seq<char>, serde_json::Value)>::empty(),
    }) + enabled.map_values(
        |s: McpServerConfig| (s.name@, server_entry_value(s.server_type)),
    ) + custom.map_values(
        |s: McpCustomServer|
            (s.name@, stdio_entry_value(s.command@, strs_view(s.args@), str_pairs_view(s.env@))),
    )
}

/// Taking name views commutes with filtering the write's survivors.
proof fn lemma_entry_views_filter_survives(
    s: Seq<(String, serde_json::Value)>,
    added: Seq<Seq<char>>,
)
    ensures
        entry_views(s.filter(survives(added))) == entry_views(s).filter(survives_views(added)),
    decreases s.len(),
{
    if s.len() == 0 {
        assert(entry_views(s.filter(survives(added))) =~= entry_views(s).filter(
            survives_views(added),
        ));
    } else {
        let prefix = s.drop_last();
        let last = s.last();
        assert(s =~= prefix.push(last));
        prefix.lemma_filter_push(last, survives(added));
        assert(s.filter(survives(added)) == prefix.push(last).filter(survives(added)));
        assert(entry_views(s) =~= entry_views(prefix).push((last.0@, last.1)));
        entry_views(prefix).lemma_filter_push((last.0@, last.1), survives_views(added));
        assert(entry_views(s).filter(survives_views(added)) == entry_views(prefix).push(
            (last.0@, last.1),
        ).filter(survives_views(added)));
        lemma_entry_views_filter_survives(prefix, added);
        if survives(added)(last) {
            assert(entry_views(prefix.filter(survives(added)).push(last)) =~= entry_views(
                prefix.filter(survives(added)),
            ).push((last.0@, last.1)));
            assert(entry_views(s.filter(survives(added))) =~= entry_views(s).filter(
                survives_views(added),
            ));
        } else {
            assert(entry_views(s.filter(survives(added))) =~= entry_views(s).filter(
                survives_views(added),
            ));
        }
    }
}

/// Taking name views commutes with removing the managed set.
proof fn lemma_entry_views_filter_not_managed(s: Seq<(String, serde_json::Value)>)
    ensures
        entry_views(s.filter(not_managed())) == entry_views(s).filter(not_managed_view()),
    decreases s.len(),
{
    if s.len() == 0 {
        assert(entry_views(s.filter(not_managed())) =~= entry_views(s).filter(
            not_managed_view(),
        ));
    } else {
        let prefix = s.drop_last();
        let last = s.last();
        assert(s =~= prefix.push(last));
        prefix.lemma_filter_push(last, not_managed());
        assert(s.filter(not_managed()) == prefix.push(last).filter(not_managed()));
        assert(entry_views(s) =~= entry_views(prefix).push((last.0@, last.1)));
        entry_views(prefix).lemma_filter_push((last.0@, last.1), not_managed_view());
        assert(entry_views(s).filter(not_managed_view()) == entry_views(prefix).push(
            (last.0@, last.1),
        ).filter(not_managed_view()));
        lemma_entry_views_filter_not_managed(prefix);
        if not_managed()(last) {
            assert(entry_views(prefix.filter(not_managed()).push(last)) =~= entry_views(
                prefix.filter(not_managed()),
            ).push((last.0@, last.1)));
            assert(entry_views(s.filter(not_managed())) =~= entry_views(s).filter(
                not_managed_view(),
            ));
        } else {
            assert(entry_views(s.filter(not_managed())) =~= entry_views(s).filter(
                not_managed_view(),
            ));
        }
    }
}

/// Builds the entries a session write adds, in order.
fn build_session_entries(
    sidecar_command: Option<&str>,
    session_id: u32,
    status_url: &str,
    instance_id: &str,
    enabled_servers: &Vec<McpServerConfig>,
    custom_servers: &Vec<McpCustomServer>,
) -> (r: Vec<(String, serde_json::Value)>)
    ensures
        entry_views(r@) == session_entry_views(
            match sidecar_command {
                Option::Some(c) => Some(c@),
                Option::None => None,
            },
            session_id,
            status_url@,
            instance_id@,
            enabled_servers@,
            custom_servers@,
        ),
{
    let ghost side_part = match sidecar_command {
        Option::Some(c) => seq![
            (
                "maestro-status"@,
                sidecar_entry_value(
                    c@,
                    crate::decimal::dec_str(session_id as nat),
                    status_url@,
                    instance_id@,
                ),
            ),
        ],
        Option::None => Seq::<(Seq<char>, serde_json::Value)>::empty(),
    };
    let ghost f_enabled = |s: McpServerConfig| (s.name@, server_entry_value(s.server_type));
    let ghost f_custom = |s: McpCustomServer|
        (s.name@, stdio_entry_value(s.command@, strs_view(s.args@), str_pairs_view(s.env@)));
    let mut r: Vec<(String, serde_json::Value)> = Vec::new();
    match sidecar_command {
        Some(cmd) => {
            let sid = crate::decimal::u32_to_string(session_id);
            let entry = make_sidecar_entry(cmd, sid.as_str(), status_url, instance_id);
            r.push(("maestro-status".to_owned(), entry));
        },
        None => {},
    }
    proof {
        assert(entry_views(r@) =~= side_part);
    }
    let mut i: usize = 0;
    while i < enabled_servers.len()
        invariant
            i <= enabled_servers@.len(),
            side_part == (match sidecar_command {
                Option::Some(c) => seq![
                    (
                        "maestro-status"@,
                        sidecar_entry_value(
                            c@,
                            crate::decimal::dec_str(session_id as nat),
                            status_url@,
                            instance_id@,
                        ),
                    ),
                ],
                Option::None => Seq::<(Seq<char>, serde_json::Value)>::empty(),
            }),
            f_enabled == (|s: McpServerConfig| (s.name@, server_entry_value(s.server_type))),
            entry_views(r@) == side_part + enabled_servers@.take(i as int).map_values(f_enabled),
        decreases enabled_servers@.len() - i,
    {
        let s = &enabled_servers[i];
        let ghost before = entry_views(r@);
        r.push((s.name.clone(), server_config_to_json(s)));
        proof {
            assert(entry_views(r@) =~= before.push(
                (enabled_servers@[i as int].name@, server_entry_value(
                    enabled_servers@[i as int].server_type,
                )),
            ));
            assert(enabled_servers@.take(i + 1).map_values(f_enabled) =~= enabled_servers@.take(
                i as int,
            ).map_values(f_enabled).push(f_enabled(enabled_servers@[i as int])));
            assert(entry_views(r@) =~= side_part + enabled_servers@.take(i + 1).map_values(
                f_enabled,
            ));
        }
        i += 1;
    }
    proof {
        assert(enabled_servers@.take(enabled_servers@.len() as int) =~= enabled_servers@);
        assert(entry_views(r@) == side_part + enabled_servers@.map_values(f_enabled));
    }
    let ghost mid = entry_views(r@);
    let mut i: usize = 0;
    while i < custom_servers.len()
        invariant
            i <= custom_servers@.len(),
            mid == entry_views(r@).take(mid.len() as int),
            f_custom == (|s: McpCustomServer|
                (s.name@, stdio_entry_value(s.command@, strs_view(s.args@), str_pairs_view(s.env@)))),
            entry_views(r@) == mid + custom_servers@.take(i as int).map_values(f_custom),
        decreases custom_servers@.len() - i,
    {
        let s = &custom_servers[i];
        let ghost before = entry_views(r@);
        r.push((s.name.clone(), custom_server_to_json(s)));
        proof {
            assert(entry_views(r@) =~= before.push(f_custom(custom_servers@[i as int])));
            assert(custom_servers@.take(i + 1).map_values(f_custom) =~= custom_servers@.take(
                i as int,
            ).map_values(f_custom).push(f_custom(custom_servers@[i as int])));
            assert(entry_views(r@) =~= mid + custom_servers@.take(i + 1).map_values(f_custom));
            assert(mid =~= entry_views(r@).take(mid.len() as int));
        }
        i += 1;
    }
    proof {
        assert(custom_servers@.take(custom_servers@.len() as int) =~= custom_servers@);
        assert(entry_views(r@) =~= session_entry_views(
            match sidecar_command {
                Option::Some(c) => Some(c@),
                Option::None => None,
            },
            session_id,
            status_url@,
            instance_id@,
            enabled_servers@,
            custom_servers@,
        ));
    }
    r
}

/// Computes the new content of a session's config file: the sidecar
/// entry (when its binary was found), the enabled discovered servers and
/// the enabled custom servers are merged into the existing document,
/// preserving user entries.  A malformed existing document fails the
/// write rather than clobbering the file; a successful write renders
/// exactly the merged document.
pub fn write_session_mcp_config_content(
    existing_content: Option<&str>,
    sidecar_command: Option<&str>,
    session_id: u32,
    status_url: &str,
    instance_id: &str,
    enabled_servers: &Vec<McpServerConfig>,
    custom_servers: &Vec<McpCustomServer>,
) -> (r: Result<String, String>)
    ensures
        (existing_content matches Option::Some(c) && parsed_entries_of(c@) is None) ==> r is Err,
        r matches Ok(out) ==> out@ == rendered_doc_of(
            merged_views(
                match existing_content {
                    Option::Some(c) => entry_views(parsed_entries_of(c@)->0),
                    Option::None => Seq::<(Seq<char>, serde_json::Value)>::empty(),
                },
                session_entry_views(
                    match sidecar_command {
                        Option::Some(c) => Some(c@),
                        Option::None => None,
                    },
                    session_id,
                    status_url@,
                    instance_id@,
                    enabled_servers@,
                    custom_servers@,
                ),
            ),
        ),
{
    let new_entries = build_session_entries(
        sidecar_command,
        session_id,
        status_url,
        instance_id,
        enabled_servers,
        custom_servers,
    );
    let ghost new_views = entry_views(new_entries@);
    let existing: Vec<(String, serde_json::Value)> = match existing_content {
        Some(content) => {
            match parse_server_entries(content) {
                Ok(entries) => entries,
                Err(e) => {
                    return Err(e);
                },
            }
        },
        None => Vec::new(),
    };
    let ghost existing_views = entry_views(existing@);
    proof {
        match existing_content {
            Option::Some(c) => {
                assert(Some(existing@) == parsed_entries_of(c@));
            },
            Option::None => {
                assert(existing_views =~= Seq::<(Seq<char>, serde_json::Value)>::empty());
            },
        }
    }
    let merged = merge_server_lists(existing, new_entries);
    proof {
        let added = names_of(new_entries@);
        lemma_entry_views_filter_survives(existing@, added);
        assert(view_names(new_views) =~= added);
        assert(entry_views(merged@) =~= existing_views.filter(survives_views(added))
            + new_views);
        assert(entry_views(merged@) =~= merged_views(existing_views, new_views));
    }
    serialize_server_entries(&merged)
}

/// Computes the config file content after a session ends: the managed
/// entries are removed and user entries kept, rendered as the document.
/// A malformed document fails the rewrite.
pub fn remove_session_mcp_config_content(existing_content: &str) -> (r: Result<String, String>)
    ensures
        parsed_entries_of(existing_content@) is None ==> r is Err,
        r matches Ok(out) ==> out@ == rendered_doc_of(
            entry_views(parsed_entries_of(existing_content@)->0).filter(not_managed_view()),
        ),
{
    let existing = match parse_server_entries(existing_content) {
        Ok(entries) => entries,
        Err(e) => {
            return Err(e);
        },
    };
    proof {
        assert(Some(existing@) == parsed_entries_of(existing_content@));
    }
    let cleaned = remove_managed_entries(existing);
    proof {
        lemma_entry_views_filter_not_managed(existing@);
    }
    serialize_server_entries(&cleaned)
}

/// Every user entry present before a write is present after it,
/// untouched and in order, as long as the write does not itself use that
/// name: merging never alters an unmanaged, un-overwritten entry.
pub proof fn lemma_merge_preserves_user(
    existing: Seq<(String, serde_json::Value)>,
    new_entries: Seq<(String, serde_json::Value)>,
    k: int,
)
    requires
        0 <= k < existing.len(),
        !managed_name(existing[k].0@),
        !names_of(new_entries).contains(existing[k].0@),
    ensures
        merge_model(existing, new_entries).contains(existing[k]),
    decreases existing.len(),
{
    let pred = survives(names_of(new_entries));
    assert(pred(existing[k]));
    existing.lemma_filter_contains(pred, k);
    let f = existing.filter(pred);
    let w = choose|w: int| 0 <= w < f.len() && f[w] == existing[k];
    assert(merge_model(existing, new_entries)[w] == existing[k]);
}

/// Every new entry of a write is present in the merged document.
pub proof fn lemma_merge_adds_new(
    existing: Seq<(String, serde_json::Value)>,
    new_entries: Seq<(String, serde_json::Value)>,
    k: int,
)
    requires
        0 <= k < new_entries.len(),
    ensures
        merge_model(existing, new_entries).contains(new_entries[k]),
{
    let f = existing.filter(survives(names_of(new_entries)));
    assert(merge_model(existing, new_entries)[f.len() + k] == new_entries[k]);
}

/// Writing a session's entries and then removing the managed set yields
/// the same document as removing the managed set alone, whenever every
/// written entry is managed (the sidecar entry is): at the entry level
/// the write-then-remove round trip leaves exactly the user entries.
pub proof fn lemma_write_then_remove(
    existing: Seq<(String, serde_json::Value)>,
    new_entries: Seq<(String, serde_json::Value)>,
)
    requires
        forall|k: int| 0 <= k < new_entries.len() ==> managed_name(#[trigger] new_entries[k].0@),
    ensures
        remove_model(merge_model(existing, new_entries)) == remove_model(existing),
{
    let added = names_of(new_entries);
    let kept = existing.filter(survives(added));
    Seq::filter_distributes_over_add(kept, new_entries, not_managed());
    lemma_filter_twice(existing, added);
    lemma_filter_all_dropped(new_entries);
    assert(remove_model(merge_model(existing, new_entries)) =~= remove_model(existing));
}

/// Filtering the survivors of a write by "not managed" gives exactly the
/// unmanaged entries that the write did not overwrite … and when none of
/// the added names is unmanaged-and-present this is all unmanaged
/// entries.  Here the added names are all managed, so an unmanaged entry
/// is never overwritten.
proof fn lemma_filter_twice(
    existing: Seq<(String, serde_json::Value)>,
    added: Seq<Seq<char>>,
)
    requires
        forall|k: int| 0 <= k < added.len() ==> managed_name(#[trigger] added[k]),
    ensures
        existing.filter(survives(added)).filter(not_managed()) == existing.filter(not_managed()),
    decreases existing.len(),
{
    if existing.len() == 0 {
        assert(existing.filter(survives(added)).filter(not_managed()) =~= existing.filter(
            not_managed(),
        ));
    } else {
        let prefix = existing.drop_last();
        let last = existing.last();
        assert(existing =~= prefix.push(last));
        prefix.lemma_filter_push(last, survives(added));
        assert(existing.filter(survives(added)) == prefix.push(last).filter(survives(added)));
        prefix.lemma_filter_push(last, not_managed());
        assert(existing.filter(not_managed()) == prefix.push(last).filter(not_managed()));
        lemma_filter_twice(prefix, added);
        if survives(added)(last) {
            prefix.filter(survives(added)).lemma_filter_push(last, not_managed());
            assert(prefix.filter(survives(added)).push(last).filter(not_managed())
                == if not_managed()(last) {
                prefix.filter(survives(added)).filter(not_managed()).push(last)
            } else {
                prefix.filter(survives(added)).filter(not_managed())
            });
        } else {
            // `last` is managed or overwritten by a managed name, so the
            // plain removal drops it too
            if not_managed()(last) {
                assert(added.contains(last.0@));
                let w = choose|w: int| 0 <= w < added.len() && added[w] == last.0@;
                assert(managed_name(last.0@));
                assert(false);
            }
        }
    }
}

/// Removing the managed set from all-managed entries leaves nothing.
proof fn lemma_filter_all_dropped(new_entries: Seq<(String, serde_json::Value)>)
    requires
        forall|k: int| 0 <= k < new_entries.len() ==> managed_name(#[trigger] new_entries[k].0@),
    ensures
        new_entries.filter(not_managed()) == Seq::<(String, serde_json::Value)>::empty(),
    decreases new_entries.len(),
{
    if new_entries.len() == 0 {
        assert(new_entries.filter(not_managed()) =~= Seq::<(String, serde_json::Value)>::empty());
    } else {
        let prefix = new_entries.drop_last();
        assert(new_entries =~= prefix.push(new_entries.last()));
        prefix.lemma_filter_push(new_entries.last(), not_managed());
        assert(new_entries.filter(not_managed()) == prefix.push(new_entries.last()).filter(
            not_managed(),
        ));
        lemma_filter_all_dropped(prefix);
    }
}

/// A sequence of writes with pairwise distinct, unmanaged names — like
/// several sessions registering distinct servers in one directory —
/// leaves every one of the written entries, and every preexisting
/// unmanaged entry that none of them overwrote, in the final document.
pub proof fn lemma_concurrent_distinct_writes(
    doc: Seq<(String, serde_json::Value)>,
    writes: Seq<(String, serde_json::Value)>,
    i: int,
)
    requires
        forall|a: int, b: int|
            0 <= a < b < writes.len() ==> #[trigger] writes[a].0@ != #[trigger] writes[b].0@,
        forall|k: int| 0 <= k < writes.len() ==> !managed_name(#[trigger] writes[k].0@),
        0 <= i < writes.len(),
    ensures
        apply_writes(doc, writes).contains(writes[i]),
    decreases writes.len(),
{
    let first = writes[0];
    let rest = writes.drop_first();
    let after = merge_model(doc, seq![first]);
    if i == 0 {
        lemma_merge_adds_new(doc, seq![first], 0);
        assert(after.contains(first));
        assert(forall|k: int| 0 <= k < rest.len() ==> #[trigger] rest[k].0@ != first.0@) by {
            assert(forall|k: int| 0 <= k < rest.len() ==> rest[k] == writes[k + 1]);
        }
        lemma_apply_writes_keeps(after, rest, first);
    } else {
        assert(forall|a: int, b: int|
            0 <= a < b < rest.len() ==> #[trigger] rest[a].0@ != #[trigger] rest[b].0@);
        assert(forall|k: int| 0 <= k < rest.len() ==> !managed_name(#[trigger] rest[k].0@));
        lemma_concurrent_distinct_writes(after, rest, i - 1);
        assert(rest[i - 1] == writes[i]);
    }
}

/// The document after applying each write (one entry each) in turn.
pub open spec fn apply_writes(
    doc: Seq<(String, serde_json::Value)>,
    writes: Seq<(String, serde_json::Value)>,
) -> Seq<(String, serde_json::Value)>
    decreases writes.len(),
{
    if writes.len() == 0 {
        doc
    } else {
        apply_writes(merge_model(doc, seq![writes[0]]), writes.drop_first())
    }
}

/// An unmanaged entry whose name no later write uses survives the rest
/// of the writes.
proof fn lemma_apply_writes_keeps(
    doc: Seq<(String, serde_json::Value)>,
    writes: Seq<(String, serde_json::Value)>,
    e: (String, serde_json::Value),
)
    requires
        doc.contains(e),
        !managed_name(e.0@),
        forall|k: int| 0 <= k < writes.len() ==> #[trigger] writes[k].0@ != e.0@,
    ensures
        apply_writes(doc, writes).contains(e),
    decreases writes.len(),
{
    if writes.len() == 0 {
    } else {
        let first = writes[0];
        let after = merge_model(doc, seq![first]);
        let w = choose|w: int| 0 <= w < doc.len() && doc[w] == e;
        assert(names_of(seq![first]).len() == 1 && names_of(seq![first])[0] == first.0@);
        assert(!names_of(seq![first]).contains(e.0@)) by {
            if names_of(seq![first]).contains(e.0@) {
                let v = choose|v: int|
                    0 <= v < names_of(seq![first]).len() && names_of(seq![first])[v] == e.0@;
                assert(v == 0);
            }
        }
        lemma_merge_preserves_user(doc, seq![first], w);
        assert(forall|k: int|
            0 <= k < writes.drop_first().len() ==> #[trigger] writes.drop_first()[k].0@ != e.0@)
            by {
            assert(forall|k: int|
                0 <= k < writes.drop_first().len() ==> writes.drop_first()[k] == writes[k + 1]);
        }
        lemma_apply_writes_keeps(after, writes.drop_first(), e);
    }
}

} // verus!
