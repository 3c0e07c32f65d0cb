//! The MCP servers that answered, and the tools that they offer.
//!
//! A server that fails to connect contributes nothing and stops no other.

use crate::json::{Json, JsonView};
use crate::mcp::client::{McpServerConfig, McpToolDef, McpToolDefView};
use crate::mcp::config::{
    enabled_servers, merge_plugin_declarations, retain_enabled, with_declared, DeclaredServer,
    McpConfig,
};
use crate::text::{clone_strings, strs};
use vstd::prelude::*;

verus! {

/// How long a server may take to connect, in seconds.
pub const CONNECT_TIMEOUT_SECS: u64 = 30;

pub open spec fn timed_out(server: Seq<char>) -> Seq<char> {
    "MCP server `"@ + server + "` connect timed out after 30s"@
}

/// The failure of a server that did not connect in time.
pub fn connect_timed_out(server: &str) -> (r: String)
    ensures
        r@ == timed_out(server@),
{
    let mut out = "MCP server `".to_owned();
    out.append(server);
    out.append("` connect timed out after 30s");
    out
}

/// The failure of a server that did not list its tools.
pub fn list_failed(server: &str, error: &str) -> (r: String)
    ensures
        r@ == "MCP server `"@ + server@ + "` tools/list failed: "@ + error@,
{
    let mut out = "MCP server `".to_owned();
    out.append(server);
    out.append("` tools/list failed: ");
    out.append(error);
    out
}

/// A server that answered.
#[derive(Debug, PartialEq, Eq)]
pub struct ConnectedServer {
    pub name: String,
    pub tools: Vec<McpToolDef>,
}

/// The mathematical value of a [`ConnectedServer`].
#[verifier::ext_equal]
pub struct ConnectedServerView {
    pub name: Seq<char>,
    pub tools: Seq<McpToolDefView>,
}

impl DeepView for ConnectedServer {
    type V = ConnectedServerView;

    open spec fn deep_view(&self) -> ConnectedServerView {
        ConnectedServerView { name: self.name@, tools: self.tools.deep_view() }
    }
}

/// A tool as the model sees it.
#[derive(Debug, PartialEq, Eq)]
pub struct ReadyTool {
    /// The name that the model calls.
    pub name: String,
    /// The name that the server expects.
    pub tool_name: String,
    pub description: String,
    pub input_schema: Json,
}

/// The mathematical value of a [`ReadyTool`].
#[verifier::ext_equal]
pub struct ReadyToolView {
    pub name: Seq<char>,
    pub tool_name: Seq<char>,
    pub description: Seq<char>,
    pub input_schema: JsonView,
}

impl DeepView for ReadyTool {
    type V = ReadyToolView;

    open spec fn deep_view(&self) -> ReadyToolView {
        ReadyToolView {
            name: self.name@,
            tool_name: self.tool_name@,
            description: self.description@,
            input_schema: self.input_schema.deep_view(),
        }
    }
}

/// `mcp__<server>__<tool>`.
pub open spec fn namespaced(server: Seq<char>, tool: Seq<char>) -> Seq<char> {
    "mcp__"@ + server + "__"@ + tool
}

pub open spec fn ready(server: Seq<char>, def: McpToolDefView) -> ReadyToolView {
    ReadyToolView {
        name: namespaced(server, def.name),
        tool_name: def.name,
        description: def.description,
        input_schema: def.input_schema,
    }
}

impl ReadyTool {
    /// Whether a call goes to the server: not once the user has stopped the turn.
    pub fn check_running(cancelled: bool) -> (r: Result<(), String>)
        ensures
            if cancelled {
                r matches Err(e) && e@ == "MCP tool cancelled"@
            } else {
                r is Ok
            },
    {
        if cancelled {
            Err("MCP tool cancelled".to_owned())
        } else {
            Ok(())
        }
    }

    /// Offers a tool of a server. The name carries the server's, so that tools of
    /// different servers do not collide with each other or with built-in ones.
    pub fn new(server: &str, def: &McpToolDef) -> (r: Self)
        ensures
            r.deep_view() == ready(server@, def.deep_view()),
    {
        let mut name = "mcp__".to_owned();
        name.append(server);
        name.append("__");
        name.append(def.name.as_str());
        ReadyTool {
            name,
            tool_name: def.name.clone(),
            description: def.description.clone(),
            input_schema: def.input_schema.clone(),
        }
    }
}

pub open spec fn server_ready_tools(s: ConnectedServerView) -> Seq<ReadyToolView> {
    Seq::new(s.tools.len(), |i: int| ready(s.name, s.tools[i]))
}

/// The tools of the servers, one server after the other.
pub open spec fn all_ready_tools(servers: Seq<ConnectedServerView>) -> Seq<ReadyToolView>
    decreases servers.len(),
{
    if servers.len() == 0 {
        seq![]
    } else {
        all_ready_tools(servers.drop_last()) + server_ready_tools(servers.last())
    }
}

pub open spec fn tools_in(servers: Seq<ConnectedServerView>) -> nat
    decreases servers.len(),
{
    if servers.len() == 0 {
        0
    } else {
        tools_in(servers.drop_last()) + servers.last().tools.len()
    }
}

/// The servers that answered, in the order in which they were asked.
pub open spec fn answered(results: Seq<Result<ConnectedServer, String>>) -> Seq<ConnectedServer>
    decreases results.len(),
{
    if results.len() == 0 {
        seq![]
    } else {
        match results.last() {
            Ok(s) => answered(results.drop_last()).push(s),
            Err(_) => answered(results.drop_last()),
        }
    }
}

pub open spec fn failures(results: Seq<Result<ConnectedServer, String>>) -> Seq<String>
    decreases results.len(),
{
    if results.len() == 0 {
        seq![]
    } else {
        match results.last() {
            Err(e) => failures(results.drop_last()).push(e),
            Ok(_) => failures(results.drop_last()),
        }
    }
}

/// The servers that answered.
#[derive(Debug, PartialEq, Eq)]
pub struct McpRegistry {
    pub servers: Vec<ConnectedServer>,
}

impl McpRegistry {
    /// A registry before any server answered.
    pub fn load() -> (r: Self)
        ensures
            r.servers@ == Seq::<ConnectedServer>::empty(),
    {
        McpRegistry { servers: Vec::new() }
    }

    pub fn servers(&self) -> (r: &Vec<ConnectedServer>)
        ensures
            *r == self.servers,
    {
        &self.servers
    }

    /// Collects what came of connecting every server: the registry, and the
    /// failures to report.
    pub fn connect_all(results: Vec<Result<ConnectedServer, String>>) -> (r: (Self, Vec<String>))
        ensures
            r.0.servers@ == answered(results@),
            r.1@ == failures(results@),
    {
        let ghost all = results@;
        let mut rest: Vec<Result<ConnectedServer, String>> = Vec::new();
        let mut results = results;
        while results.len() > 0
            invariant
                results@ + rest@.reverse() == all,
            decreases results@.len(),
        {
            let ghost before = results@;
            let ghost behind = rest@;
            match results.pop() {
                Some(x) => {
                    rest.push(x);
                    assert(rest@.reverse() =~= seq![x] + behind.reverse());
                    assert(results@ + (seq![x] + behind.reverse()) =~= before + behind.reverse());
                },
                None => {},
            }
        }
        assert(rest@.reverse() =~= all);
        let mut servers: Vec<ConnectedServer> = Vec::new();
        let mut failed: Vec<String> = Vec::new();
        let ghost mut n: int = 0;
        assert(all.take(0) =~= seq![]);
        while rest.len() > 0
            invariant
                0 <= n <= all.len(),
                rest@.reverse() == all.skip(n),
                servers@ == answered(all.take(n)),
                failed@ == failures(all.take(n)),
            decreases rest@.len(),
        {
            let ghost before = rest@;
            assert(before.reverse()[0] == before[before.len() - 1]);
            assert(before.reverse().len() == before.len());
            assert(all.skip(n).len() == all.len() - n);
            assert(all.skip(n)[0] == all[n]);
            assert(all.take(n + 1).drop_last() =~= all.take(n));
            match rest.pop() {
                Some(x) => {
                    assert(x == all[n]);
                    assert(rest@.reverse() =~= before.reverse().skip(1));
                    assert(all.skip(n).skip(1) =~= all.skip(n + 1));
                    match x {
                        Ok(s) => servers.push(s),
                        Err(e) => failed.push(e),
                    }
                },
                None => {},
            }
            proof {
                n = n + 1;
            }
        }
        assert(rest@.reverse().len() == 0);
        assert(all.take(n) =~= all);
        (McpRegistry { servers }, failed)
    }

    /// How many tools the servers offer together.
    pub fn tool_count(&self) -> (r: usize)
        requires
            tools_in(self.servers.deep_view()) <= usize::MAX,
        ensures
            r == tools_in(self.servers.deep_view()),
    {
        let ghost all = self.servers.deep_view();
        let mut count: usize = 0;
        for i in 0..self.servers.len()
            invariant
                all == self.servers.deep_view(),
                tools_in(all) <= usize::MAX,
                count == tools_in(all.take(i as int)),
        {
            assert(all.take(i + 1).drop_last() =~= all.take(i as int));
            proof {
                lemma_tools_in_grows(all, i + 1);
            }
            count += self.servers[i].tools.len();
        }
        assert(all.take(all.len() as int) =~= all);
        count
    }

    /// The tools of the servers that answered, for the model.
    pub fn ready_tools(&self) -> (r: Vec<ReadyTool>)
        ensures
            r.deep_view() == all_ready_tools(self.servers.deep_view()),
    {
        let ghost all = self.servers.deep_view();
        let mut out: Vec<ReadyTool> = Vec::new();
        assert(out.deep_view() =~= seq![]);
        for i in 0..self.servers.len()
            invariant
                all == self.servers.deep_view(),
                out.deep_view() == all_ready_tools(all.take(i as int)),
        {
            let server = &self.servers[i];
            let ghost before = out.deep_view();
            let ghost view = server.deep_view();
            assert(all.take(i + 1).drop_last() =~= all.take(i as int));
            assert(before + server_ready_tools(view).take(0) =~= before);
            for j in 0..server.tools.len()
                invariant
                    view == server.deep_view(),
                    out.deep_view() == before + server_ready_tools(view).take(j as int),
            {
                let ghost so_far = out.deep_view();
                let tool = ReadyTool::new(server.name.as_str(), &server.tools[j]);
                out.push(tool);
                assert(out.deep_view() =~= so_far.push(tool.deep_view()));
                assert(out.deep_view() =~= before + server_ready_tools(view).take(j + 1));
            }
            assert(server_ready_tools(view).take(view.tools.len() as int) =~= server_ready_tools(
                view,
            ));
        }
        assert(all.take(all.len() as int) =~= all);
        out
    }
}

proof fn lemma_tools_in_grows(servers: Seq<ConnectedServerView>, n: int)
    requires
        0 <= n <= servers.len(),
    ensures
        tools_in(servers.take(n)) <= tools_in(servers),
    decreases servers.len() - n,
{
    if n < servers.len() {
        lemma_tools_in_grows(servers, n + 1);
        assert(servers.take(n + 1).drop_last() =~= servers.take(n));
    } else {
        assert(servers.take(n) =~= servers);
    }
}

/// Every failure is reported and every other server is there.
pub proof fn no_server_is_lost(results: Seq<Result<ConnectedServer, String>>)
    ensures
        answered(results).len() + failures(results).len() == results.len(),
    decreases results.len(),
{
    if results.len() > 0 {
        no_server_is_lost(results.drop_last());
    }
}

/// The configured servers: the user's, where their file could be read, with those
/// that plugins declare.
pub fn load_merged_config(user: Option<McpConfig>, declared: Vec<DeclaredServer>) -> (r: McpConfig)
    ensures
        r.mcp_servers@ == with_declared(
            match user {
                Some(c) => c.mcp_servers@,
                None => Map::empty(),
            },
            declared@,
        ),
{
    let mut config = match user {
        Some(c) => c,
        None => McpConfig::default(),
    };
    merge_plugin_declarations(&mut config, declared);
    config
}

/// The servers to connect: the configured ones that the user has not disabled.
pub fn servers_to_connect(
    user: Option<McpConfig>,
    declared: Vec<DeclaredServer>,
    disabled: &Vec<String>,
) -> (r: McpConfig)
    ensures
        r.mcp_servers@ == enabled_servers(
            with_declared(
                match user {
                    Some(c) => c.mcp_servers@,
                    None => Map::empty(),
                },
                declared@,
            ),
            strs(disabled@),
        ),
{
    let mut config = load_merged_config(user, declared);
    retain_enabled(&mut config, disabled);
    config
}

/// What a plugin's `.mcp.json` declares.
#[derive(Debug, PartialEq, Eq)]
pub struct PluginServers {
    pub root: String,
    pub servers: Vec<(String, McpServerConfig)>,
}

/// A server to start, and the plugin that it belongs to.
#[derive(Debug, PartialEq, Eq)]
pub struct PluginServer {
    pub name: String,
    pub config: McpServerConfig,
    pub root: String,
}

/// The mathematical value of a [`PluginServer`].
#[verifier::ext_equal]
pub struct PluginServerView {
    pub name: Seq<char>,
    pub command: Seq<char>,
    pub args: Seq<Seq<char>>,
    pub env: Seq<(Seq<char>, Seq<char>)>,
    pub root: Seq<char>,
}

pub open spec fn env_of(env: Seq<(String, String)>) -> Seq<(Seq<char>, Seq<char>)> {
    Seq::new(env.len(), |i: int| (env[i].0@, env[i].1@))
}

pub open spec fn plugin_server(name: String, config: McpServerConfig, root: String) -> PluginServerView {
    PluginServerView {
        name: name@,
        command: config.command@,
        args: strs(config.args@),
        env: env_of(config.env@),
        root: root@,
    }
}

impl DeepView for PluginServer {
    type V = PluginServerView;

    open spec fn deep_view(&self) -> PluginServerView {
        plugin_server(self.name, self.config, self.root)
    }
}

pub open spec fn servers_of(p: PluginServers) -> Seq<PluginServerView> {
    Seq::new(p.servers@.len(), |i: int| plugin_server(p.servers@[i].0, p.servers@[i].1, p.root))
}

/// The servers of the plugins, one plugin after the other.
pub open spec fn collected(plugins: Seq<PluginServers>) -> Seq<PluginServerView>
    decreases plugins.len(),
{
    if plugins.len() == 0 {
        seq![]
    } else {
        collected(plugins.drop_last()) + servers_of(plugins.last())
    }
}

fn clone_env(env: &Vec<(String, String)>) -> (r: Vec<(String, String)>)
    ensures
        env_of(r@) == env_of(env@),
{
    let mut out: Vec<(String, String)> = Vec::new();
    for i in 0..env.len()
        invariant
            env_of(out@) == env_of(env@).take(i as int),
    {
        let ghost before = env_of(out@);
        out.push((env[i].0.clone(), env[i].1.clone()));
        assert(env_of(out@) =~= before.push(env_of(env@)[i as int]));
        assert(env_of(out@) =~= env_of(env@).take(i + 1));
    }
    assert(env_of(out@) =~= env_of(env@));
    out
}

/// The servers that plugins declare, under the names that they declare; `plugins`
/// are those whose file could be read.
pub fn collect_configs(plugins: &Vec<PluginServers>) -> (r: Vec<PluginServer>)
    ensures
        r.deep_view() == collected(plugins@),
{
    let mut out: Vec<PluginServer> = Vec::new();
    assert(out.deep_view() =~= seq![]);
    for i in 0..plugins.len()
        invariant
            out.deep_view() == collected(plugins@.take(i as int)),
    {
        let plugin = &plugins[i];
        let ghost before = out.deep_view();
        assert(plugins@.take(i + 1).drop_last() =~= plugins@.take(i as int));
        assert(before + servers_of(*plugin).take(0) =~= before);
        for j in 0..plugin.servers.len()
            invariant
                out.deep_view() == before + servers_of(*plugin).take(j as int),
        {
            let ghost so_far = out.deep_view();
            let declared = &plugin.servers[j];
            let server = PluginServer {
                name: declared.0.clone(),
                config: McpServerConfig {
                    command: declared.1.command.clone(),
                    args: clone_strings(&declared.1.args),
                    env: clone_env(&declared.1.env),
                },
                root: plugin.root.clone(),
            };
            assert(server.deep_view() =~= servers_of(*plugin)[j as int]);
            out.push(server);
            assert(out.deep_view() =~= so_far.push(server.deep_view()));
            assert(out.deep_view() =~= before + servers_of(*plugin).take(j + 1));
        }
        assert(servers_of(*plugin).take(plugin.servers@.len() as int) =~= servers_of(*plugin));
    }
    assert(plugins@.take(plugins@.len() as int) =~= plugins@);
    out
}

/// A tool that is ready goes by the names of its server and its own, and keeps its
/// description and its schema.
pub proof fn a_ready_tool_keeps_its_definition(server: Seq<char>, def: McpToolDefView)
    ensures
        ready(server, def).name == "mcp__"@ + server + "__"@ + def.name,
        ready(server, def).tool_name == def.name,
        ready(server, def).description == def.description,
        ready(server, def).input_schema == def.input_schema,
{
}

/// The tools of all servers are ready in the order of the servers, each in its order,
/// and they are counted.
pub proof fn all_tools_are_ready(
    servers: Seq<ConnectedServerView>,
    next: ConnectedServerView,
    i: int,
)
    ensures
        all_ready_tools(Seq::<ConnectedServerView>::empty()).len() == 0,
        tools_in(Seq::<ConnectedServerView>::empty()) == 0,
        tools_in(servers.push(next)) == tools_in(servers) + next.tools.len(),
        ({
            let before = all_ready_tools(servers);
            let after = all_ready_tools(servers.push(next));
            &&& after.len() == before.len() + next.tools.len()
            &&& after.take(before.len() as int) == before
            &&& 0 <= i < next.tools.len() ==> after[before.len() + i] == ready(
                next.name,
                next.tools[i],
            )
        }),
{
    assert(servers.push(next).drop_last() =~= servers);
    assert(all_ready_tools(servers.push(next)).take(all_ready_tools(servers).len() as int)
        =~= all_ready_tools(servers));
}

/// Servers that answered are kept and failures are told, each in order.
pub proof fn servers_that_answered_are_kept(
    results: Seq<Result<ConnectedServer, String>>,
    server: ConnectedServer,
    why: String,
)
    ensures
        answered(results.push(Ok(server))) == answered(results).push(server),
        failures(results.push(Ok(server))) == failures(results),
        answered(results.push(Err(why))) == answered(results),
        failures(results.push(Err(why))) == failures(results).push(why),
        answered(Seq::empty()).len() == 0,
        failures(Seq::empty()).len() == 0,
{
    assert(results.push(Ok(server)).drop_last() =~= results);
    assert(results.push(Err(why)).drop_last() =~= results);
}

/// The servers of the plugins are collected in order, each with its command, its
/// arguments and its environment, in the directory of its plugin.
pub proof fn plugin_servers_are_collected(plugins: Seq<PluginServers>, next: PluginServers, i: int)
    ensures
        collected(Seq::<PluginServers>::empty()).len() == 0,
        ({
            let before = collected(plugins);
            let after = collected(plugins.push(next));
            &&& after.len() == before.len() + next.servers@.len()
            &&& after.take(before.len() as int) == before
            &&& 0 <= i < next.servers@.len() ==> {
                let s = after[before.len() + i];
                let config = next.servers@[i].1;
                &&& s.name == next.servers@[i].0@
                &&& s.root == next.root@
                &&& s.command == config.command@
                &&& s.args.len() == config.args@.len()
                &&& forall|k: int| 0 <= k < s.args.len() ==> #[trigger] s.args[k] == config.args@[k]@
                &&& s.env.len() == config.env@.len()
                &&& forall|k: int|
                    0 <= k < s.env.len() ==> #[trigger] s.env[k] == (
                        config.env@[k].0@,
                        config.env@[k].1@,
                    )
            }
        }),
        timed_out(next.root@) == "MCP server `"@ + next.root@ + "` connect timed out after 30s"@,
{
    assert(plugins.push(next).drop_last() =~= plugins);
    assert(collected(plugins.push(next)).take(collected(plugins).len() as int) =~= collected(
        plugins,
    ));
}

/// The view of a [`ConnectedServer`] is made of all its parts, each as it is.
pub proof fn connected_server_is_viewed_whole(x: &ConnectedServer)
    ensures
        x.deep_view() == (ConnectedServerView { name: x.name@, tools: x.tools.deep_view() }),
{
}

/// The view of a [`ReadyTool`] is made of all its parts, each as it is.
pub proof fn ready_tool_is_viewed_whole(x: &ReadyTool)
    ensures
        x.deep_view() == (ReadyToolView {
            name: x.name@,
            tool_name: x.tool_name@,
            description: x.description@,
            input_schema: x.input_schema.deep_view(),
        }),
{
}

/// The view of a [`PluginServer`] is made of all its parts, each as it is.
pub proof fn plugin_server_is_viewed_whole(x: &PluginServer)
    ensures
        x.deep_view().name == x.name@,
        x.deep_view().command == x.config.command@,
        x.deep_view().args == strs(x.config.args@),
        x.deep_view().env == env_of(x.config.env@),
        x.deep_view().root == x.root@,
{
}

} // verus!
