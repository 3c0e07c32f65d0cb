//! MCP server configuration: the user's `mcp.toml`, layered with the servers
//! that installed plugins declare.

use crate::outside::{
    header_name_error_text, header_name_ok, header_value_error_text, header_value_ok,
    parse_header_name, parse_header_value,
};
use crate::table::Table;
use crate::text::{lower, strs};
use vstd::prelude::*;

verus! {

/// How a server is reached.
#[derive(Debug, PartialEq, Eq)]
pub enum McpServerTransportConfig {
    /// Launch a local process speaking JSON-RPC over stdin/stdout.
    Stdio {
        command: String,
        args: Vec<String>,
        env: Option<Table<String>>,
        cwd: Option<String>,
    },
    /// Connect to a remote streamable-HTTP endpoint.
    StreamableHttp { url: String, headers: Option<Table<String>> },
}

/// One MCP server entry.
#[derive(Debug, PartialEq, Eq)]
pub struct McpServerConfig {
    pub transport: McpServerTransportConfig,
}

impl DeepView for McpServerConfig {
    type V = McpServerConfig;

    open spec fn deep_view(&self) -> McpServerConfig {
        *self
    }
}

/// Top-level config: a map of server name to server config.
#[derive(Debug, PartialEq, Eq)]
pub struct McpConfig {
    pub mcp_servers: Table<McpServerConfig>,
}

impl Default for McpConfig {
    fn default() -> (r: Self)
        ensures
            r.mcp_servers@ == Map::<Seq<char>, McpServerConfig>::empty(),
    {
        McpConfig { mcp_servers: Table::new() }
    }
}

/// A server that a plugin declares.
#[derive(Debug, PartialEq, Eq)]
pub struct DeclaredServer {
    pub plugin: String,
    pub name: String,
    pub config: McpServerConfig,
}

/// `<plugin>__<server>`.
pub open spec fn declared_key(d: DeclaredServer) -> Seq<char> {
    d.plugin@ + "__"@ + d.name@
}

/// The servers with the declared ones added under their own keys, in order; a
/// key that is taken stays as it is.
pub open spec fn with_declared(
    servers: Map<Seq<char>, McpServerConfig>,
    declared: Seq<DeclaredServer>,
) -> Map<Seq<char>, McpServerConfig>
    decreases declared.len(),
{
    if declared.len() == 0 {
        servers
    } else {
        let d = declared[0];
        with_declared(
            if servers.contains_key(declared_key(d)) {
                servers
            } else {
                servers.insert(declared_key(d), d.config)
            },
            declared.skip(1),
        )
    }
}

/// Merge every plugin's declarations into `config`. The server key becomes
/// `<plugin>__<server>`, so that plugin servers never collide with each other;
/// the user's entry wins on an exact key clash.
pub fn merge_plugin_declarations(config: &mut McpConfig, declared: Vec<DeclaredServer>)
    ensures
        final(config).mcp_servers@ == with_declared(old(config).mcp_servers@, declared@),
{
    let ghost all = declared@;
    let mut rest = declared;
    while rest.len() > 0
        invariant
            with_declared(config.mcp_servers@, rest@) == with_declared(
                old(config).mcp_servers@,
                all,
            ),
        decreases rest@.len(),
    {
        let ghost before = rest@;
        let d = rest.remove(0);
        assert(rest@ =~= before.skip(1));
        let mut key = d.plugin.clone();
        key.append("__");
        key.append(d.name.as_str());
        config.mcp_servers.or_insert(key, d.config);
    }
}

/// Merging keeps every entry that was there.
pub proof fn merging_keeps_existing_servers(
    servers: Map<Seq<char>, McpServerConfig>,
    declared: Seq<DeclaredServer>,
    key: Seq<char>,
)
    requires
        servers.contains_key(key),
    ensures
        with_declared(servers, declared).contains_key(key),
        with_declared(servers, declared)[key] == servers[key],
    decreases declared.len(),
{
    if declared.len() > 0 {
        let d = declared[0];
        let next = if servers.contains_key(declared_key(d)) {
            servers
        } else {
            servers.insert(declared_key(d), d.config)
        };
        merging_keeps_existing_servers(next, declared.skip(1), key);
    }
}

/// Merging adds a server under the key of every declaration.
pub proof fn merging_adds_every_declared_key(
    servers: Map<Seq<char>, McpServerConfig>,
    declared: Seq<DeclaredServer>,
    i: int,
)
    requires
        0 <= i < declared.len(),
    ensures
        with_declared(servers, declared).contains_key(declared_key(declared[i])),
    decreases declared.len(),
{
    let d = declared[0];
    let next = if servers.contains_key(declared_key(d)) {
        servers
    } else {
        servers.insert(declared_key(d), d.config)
    };
    if i == 0 {
        merging_keeps_existing_servers(next, declared.skip(1), declared_key(d));
    } else {
        merging_adds_every_declared_key(next, declared.skip(1), i - 1);
    }
}

/// The servers that are not disabled.
pub open spec fn enabled_servers(
    servers: Map<Seq<char>, McpServerConfig>,
    disabled: Seq<Seq<char>>,
) -> Map<Seq<char>, McpServerConfig> {
    Map::new(
        |k: Seq<char>| servers.contains_key(k) && !disabled.contains(k),
        |k: Seq<char>| servers[k],
    )
}

/// Drop the servers that the user disabled in settings.
pub fn retain_enabled(config: &mut McpConfig, disabled: &Vec<String>)
    ensures
        final(config).mcp_servers@ == enabled_servers(old(config).mcp_servers@, strs(disabled@)),
{
    let ghost start = config.mcp_servers@;
    let ghost names = strs(disabled@);
    assert(start =~= enabled_servers(start, names.take(0)));
    for i in 0..disabled.len()
        invariant
            names == strs(disabled@),
            config.mcp_servers@ == enabled_servers(start, names.take(i as int)),
    {
        config.mcp_servers.remove(disabled[i].as_str());
        let ghost done = names.take(i as int);
        let ghost next = names.take(i + 1);
        assert(next =~= done.push(names[i as int]));
        assert forall|k: Seq<char>| next.contains(k) <==> done.contains(k) || k == names[i as int] by {
            if done.contains(k) {
                let j = choose|j: int| 0 <= j < done.len() && done[j] == k;
                assert(next[j] == k);
            }
            assert(next[i as int] == names[i as int]);
            if next.contains(k) {
                let j = choose|j: int| 0 <= j < next.len() && next[j] == k;
                if j < i {
                    assert(done[j] == k);
                }
            }
        }
        assert(config.mcp_servers@ =~= enabled_servers(start, next));
    }
    assert(names.take(names.len() as int) =~= names);
}

/// With nothing disabled every server stays; disabling removes exactly the
/// servers that are named.
pub proof fn disabling_removes_exactly_the_named(
    servers: Map<Seq<char>, McpServerConfig>,
    disabled: Seq<Seq<char>>,
)
    ensures
        disabled.len() == 0 ==> enabled_servers(servers, disabled) == servers,
        forall|k: Seq<char>|
            enabled_servers(servers, disabled).contains_key(k) <==> servers.contains_key(k)
                && !disabled.contains(k),
{
    if disabled.len() == 0 {
        assert(enabled_servers(servers, disabled) =~= servers);
    }
}

/// The headers of a remote endpoint, by lower-case name, or what is wrong with
/// the first that is none.
pub open spec fn headers_of(
    entries: Seq<(Seq<char>, Seq<char>)>,
    done: Map<Seq<char>, Seq<char>>,
) -> Result<Map<Seq<char>, Seq<char>>, Seq<char>>
    decreases entries.len(),
{
    if entries.len() == 0 {
        Ok(done)
    } else {
        let (k, v) = entries[0];
        if !header_name_ok(k) {
            Err("invalid header name `"@ + k + "`: "@ + "invalid HTTP header name"@)
        } else if !header_value_ok(v) {
            Err("invalid header value for `"@ + k + "`: "@ + "failed to parse header value"@)
        } else {
            headers_of(entries.skip(1), done.insert(lower(k), v))
        }
    }
}

/// The entries of a table of strings in key order.
pub open spec fn string_entries(t: Table<String>) -> Seq<(Seq<char>, Seq<char>)> {
    Seq::new(t.keys().len(), |i: int| (t.keys()[i], t@[t.keys()[i]]))
}

/// Check and normalize the header table of a streamable-HTTP endpoint. Of two
/// names that differ only in case the later one in key order wins.
pub fn header_map(headers: &Table<String>) -> (r: Result<Table<String>, String>)
    ensures
        match r {
            Ok(t) => headers_of(string_entries(*headers), Map::empty()) == Ok::<
                Map<Seq<char>, Seq<char>>,
                Seq<char>,
            >(t@),
            Err(e) => headers_of(string_entries(*headers), Map::empty()) == Err::<
                Map<Seq<char>, Seq<char>>,
                Seq<char>,
            >(e@),
        },
{
    let mut map: Table<String> = Table::new();
    let n: usize = headers.len();
    let ghost all = string_entries(*headers);
    assert(all.skip(0) =~= all);
    for i in 0..n
        invariant
            n == headers.keys().len(),
            all == string_entries(*headers),
            headers_of(all, Map::empty()) == headers_of(all.skip(i as int), map@),
    {
        let k = headers.key_at(i);
        let v = headers.value_at(i);
        let ghost rest = all.skip(i as int);
        assert(rest[0] == all[i as int]);
        assert(rest.skip(1) =~= all.skip(i + 1));
        match parse_header_name(k) {
            Err(e) => {
                let mut text = "invalid header name `".to_owned();
                text.append(k);
                text.append("`: ");
                let why = header_name_error_text(&e);
                text.append(why.as_str());
                return Err(text);
            },
            Ok(name) => match parse_header_value(v.as_str()) {
                Err(e) => {
                    let mut text = "invalid header value for `".to_owned();
                    text.append(k);
                    text.append("`: ");
                    let why = header_value_error_text(&e);
                    text.append(why.as_str());
                    return Err(text);
                },
                Ok(value) => {
                    map.insert(name, value);
                },
            },
        }
    }
    Ok(map)
}

/// A server that a plugin declares goes by the names of both, and has the declared
/// configuration unless that name is taken.
pub proof fn a_declared_server_goes_by_both_names(
    servers: Map<Seq<char>, McpServerConfig>,
    d: DeclaredServer,
    other: Seq<char>,
)
    ensures
        declared_key(d) == d.plugin@ + "__"@ + d.name@,
        with_declared(servers, Seq::empty()) == servers,
        !servers.contains_key(declared_key(d)) ==> with_declared(servers, seq![d])[declared_key(d)]
            == d.config,
        other != declared_key(d) && !servers.contains_key(other) ==> !with_declared(
            servers,
            seq![d],
        ).contains_key(other),
{
    assert(seq![d].skip(1) =~= seq![]);
    let after = if servers.contains_key(declared_key(d)) {
        servers
    } else {
        servers.insert(declared_key(d), d.config)
    };
    assert(with_declared(servers, seq![d]) == with_declared(after, seq![d].skip(1)));
}

/// What stays enabled keeps its configuration.
pub proof fn an_enabled_server_keeps_its_configuration(
    servers: Map<Seq<char>, McpServerConfig>,
    disabled: Seq<Seq<char>>,
    key: Seq<char>,
)
    requires
        servers.contains_key(key),
    ensures
        !disabled.contains(key) ==> enabled_servers(servers, disabled).contains_key(key)
            && enabled_servers(servers, disabled)[key] == servers[key],
        disabled.contains(key) ==> !enabled_servers(servers, disabled).contains_key(key),
{
}

/// Headers are taken in order, each under its name in lower case with its value; the
/// first one with a bad name or value is refused by name.
pub proof fn headers_are_taken_one_by_one(
    k: Seq<char>,
    v: Seq<char>,
    rest: Seq<(Seq<char>, Seq<char>)>,
    done: Map<Seq<char>, Seq<char>>,
)
    ensures
        headers_of(Seq::empty(), done) == Ok::<Map<Seq<char>, Seq<char>>, Seq<char>>(done),
        !header_name_ok(k) ==> headers_of(seq![(k, v)] + rest, done) == Err::<
            Map<Seq<char>, Seq<char>>,
            Seq<char>,
        >("invalid header name `"@ + k + "`: "@ + "invalid HTTP header name"@),
        header_name_ok(k) && !header_value_ok(v) ==> headers_of(seq![(k, v)] + rest, done) == Err::<
            Map<Seq<char>, Seq<char>>,
            Seq<char>,
        >("invalid header value for `"@ + k + "`: "@ + "failed to parse header value"@),
        header_name_ok(k) && header_value_ok(v) ==> headers_of(seq![(k, v)] + rest, done)
            == headers_of(rest, done.insert(lower(k), v)),
{
    let all = seq![(k, v)] + rest;
    assert(all[0] == (k, v));
    assert(all.skip(1) =~= rest);
}

} // verus!
