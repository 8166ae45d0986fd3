//! The registry of context servers: which tools, prompts and instructions the
//! servers that are known offer.
//!
//! The registry never talks to a server. Each of its operations takes what
//! happened and says what is to be asked of which server; an answer is given
//! with the number of the load that it answers, and counts only while that
//! load is the latest one.

use crate::assoc_map::{AssocMap, MapKey};
use crate::context_server::ContextServerStatus;
use crate::context_server_tool::{ContextServerTool, Tool};
use crate::instructions::{
    distinct_ids, distinct_ids_carry_over, is_order_of, normalize_server_instructions, normalized,
    ordered_by_id, render_context_server_instructions, rendered,
    rendering_ignores_the_order_of_servers, section_models, Section,
};
use crate::ordered_map::{are_values_of, OrderedMap};
use vstd::prelude::*;
use vstd::seq_lib::*;

verus! {

/// The identifier of a context server.
#[derive(Debug, PartialEq, Eq)]
pub struct ContextServerId(pub String);

impl View for ContextServerId {
    type V = Seq<char>;

    open spec fn view(&self) -> Seq<char> {
        self.0@
    }
}

impl MapKey for ContextServerId {
    fn same(&self, other: &Self) -> (r: bool) {
        self.0 == other.0
    }
}

impl Clone for ContextServerId {
    fn clone(&self) -> (r: Self)
        ensures
            r == *self,
    {
        ContextServerId(self.0.clone())
    }
}

/// What a server says of a prompt.
#[derive(Debug, PartialEq, Eq)]
pub struct Prompt {
    pub name: String,
    pub description: Option<String>,
    /// Whatever else the server says of it, as it came.
    pub rest: serde_json::Value,
}

/// A prompt of a context server.
#[derive(Debug, PartialEq, Eq)]
pub struct ContextServerPrompt {
    pub server_id: ContextServerId,
    pub prompt: Prompt,
}

/// What the registry tells those who listen to it.
#[derive(Clone, Copy, Debug, PartialEq, Eq, Structural)]
pub enum ContextServerRegistryEvent {
    ToolsChanged,
    PromptsChanged,
}

/// What a server said of itself when it was initialized.
pub struct ServerClient {
    /// Whether it offers tools.
    pub tools: bool,
    /// Whether it offers prompts.
    pub prompts: bool,
    pub instructions: Option<String>,
}

/// A running server, as the store presents it.
pub struct RunningServer {
    pub id: ContextServerId,
    /// What it said of itself; nothing where it is not initialized yet.
    pub client: Option<ServerClient>,
}

/// A list to be loaded from a server.
#[derive(Debug, PartialEq, Eq)]
pub enum LoadRequest {
    Tools { server_id: ContextServerId, load: u64 },
    Prompts { server_id: ContextServerId, load: u64 },
}

/// Whom to tell about a change.
#[derive(Debug, PartialEq, Eq)]
pub struct RegistryEffects {
    /// What to tell those who listen to the registry.
    pub events: Vec<ContextServerRegistryEvent>,
    /// Whether to tell those who watch it.
    pub notify: bool,
}

/// What is known of a server.
pub struct RegisteredContextServer {
    tools: OrderedMap<ContextServerTool>,
    prompts: OrderedMap<ContextServerPrompt>,
    instructions: Option<String>,
    load_tools: Option<u64>,
    load_prompts: Option<u64>,
    tools_updated_subscription: bool,
}

/// The model of what is known of a server.
#[verifier::ext_equal]
pub struct ServerModel {
    /// Its tools, by name.
    pub tools: Map<Seq<char>, ContextServerTool>,
    /// Its prompts, by name.
    pub prompts: Map<Seq<char>, ContextServerPrompt>,
    /// The instructions that are kept of it.
    pub instructions: Option<Seq<char>>,
    /// The load of its tools that is under way.
    pub load_tools: Option<u64>,
    /// The load of its prompts that is under way.
    pub load_prompts: Option<u64>,
    /// Whether it is listened to for changes of its tools.
    pub subscribed: bool,
}

impl View for RegisteredContextServer {
    type V = ServerModel;

    closed spec fn view(&self) -> ServerModel {
        ServerModel {
            tools: self.tools@,
            prompts: self.prompts@,
            instructions: match self.instructions {
                Some(text) => Some(text@),
                None => None,
            },
            load_tools: self.load_tools,
            load_prompts: self.load_prompts,
            subscribed: self.tools_updated_subscription,
        }
    }
}

impl RegisteredContextServer {
    closed spec fn wf(&self) -> bool {
        self.tools.wf() && self.prompts.wf()
    }
}

impl ServerModel {
    /// Tools and prompts stand under their own names, and say of which server
    /// they are.
    pub open spec fn wf(self, id: Seq<char>) -> bool {
        &&& forall|name: Seq<char>| #[trigger]
            self.tools.contains_key(name) ==> self.tools[name].tool.name@ == name
                && self.tools[name].server_id@ == id
        &&& forall|name: Seq<char>| #[trigger]
            self.prompts.contains_key(name) ==> self.prompts[name].prompt.name@ == name
                && self.prompts[name].server_id@ == id
    }

    /// A server of which only this is known: what it said of itself, where it
    /// is running and initialized.
    pub open spec fn initial(client: Option<ServerClient>) -> ServerModel {
        ServerModel {
            tools: Map::empty(),
            prompts: Map::empty(),
            instructions: match client {
                Some(client) => match client.instructions {
                    Some(instructions) => normalized(instructions@),
                    None => None,
                },
                None => None,
            },
            load_tools: None,
            load_prompts: None,
            subscribed: client is Some && client->0.tools,
        }
    }
}

/// The tools that a server listed, by name. Of two with the same name, the
/// later one counts.
pub open spec fn tools_by_name(id: ContextServerId, tools: Seq<Tool>) -> Map<
    Seq<char>,
    ContextServerTool,
>
    decreases tools.len(),
{
    if tools.len() == 0 {
        Map::empty()
    } else {
        tools_by_name(id, tools.drop_last()).insert(
            tools.last().name@,
            ContextServerTool { server_id: id.0, tool: tools.last() },
        )
    }
}

/// The prompts that a server listed, by name. Of two with the same name, the
/// later one counts.
pub open spec fn prompts_by_name(id: ContextServerId, prompts: Seq<Prompt>) -> Map<
    Seq<char>,
    ContextServerPrompt,
>
    decreases prompts.len(),
{
    if prompts.len() == 0 {
        Map::empty()
    } else {
        prompts_by_name(id, prompts.drop_last()).insert(
            prompts.last().name@,
            ContextServerPrompt { server_id: id, prompt: prompts.last() },
        )
    }
}

/// The state of the registry.
#[verifier::ext_equal]
pub struct RegistryModel {
    /// The store of the servers.
    pub server_store: u64,
    /// What is known of each server.
    pub servers: Map<Seq<char>, ServerModel>,
    /// The number of the next load.
    pub next_load: u64,
}

impl RegistryModel {
    /// What is known of each server is about that server, and no load has a
    /// number that is still to be given.
    pub open spec fn wf(self) -> bool {
        forall|id: Seq<char>| #[trigger]
            self.servers.contains_key(id) ==> {
                &&& self.servers[id].wf(id)
                &&& self.servers[id].load_tools matches Some(load) ==> load < self.next_load
                &&& self.servers[id].load_prompts matches Some(load) ==> load < self.next_load
            }
    }

    /// The registry with a server replaced or added.
    pub open spec fn with(self, id: Seq<char>, server: ServerModel) -> RegistryModel {
        RegistryModel { servers: self.servers.insert(id, server), ..self }
    }

    /// The registry in which a server is known, at least as far as it said of
    /// itself.
    pub open spec fn registered(self, id: Seq<char>, client: Option<ServerClient>) -> RegistryModel {
        if self.servers.contains_key(id) {
            self
        } else {
            self.with(id, ServerModel::initial(client))
        }
    }

    /// The registry after a server began to run: it is known as it said of
    /// itself, with the tools and prompts that it was known to have before.
    pub open spec fn refreshed(self, id: Seq<char>, client: Option<ServerClient>) -> RegistryModel {
        let fresh = ServerModel::initial(client);
        self.with(
            id,
            if self.servers.contains_key(id) {
                ServerModel {
                    tools: self.servers[id].tools,
                    prompts: self.servers[id].prompts,
                    ..fresh
                }
            } else {
                fresh
            },
        )
    }

    /// The registry after the tools of a server were asked for: where the
    /// server is initialized and offers tools, a new load is under way in place
    /// of any other.
    pub open spec fn reloading_tools(self, id: Seq<char>, client: Option<ServerClient>) -> RegistryModel {
        if client is Some && client->0.tools {
            let m = self.registered(id, client);
            RegistryModel {
                next_load: (m.next_load + 1) as u64,
                ..m.with(id, ServerModel { load_tools: Some(m.next_load), ..m.servers[id] })
            }
        } else {
            self
        }
    }

    /// The registry after the prompts of a server were asked for.
    pub open spec fn reloading_prompts(
        self,
        id: Seq<char>,
        client: Option<ServerClient>,
    ) -> RegistryModel {
        if client is Some && client->0.prompts {
            let m = self.registered(id, client);
            RegistryModel {
                next_load: (m.next_load + 1) as u64,
                ..m.with(id, ServerModel { load_prompts: Some(m.next_load), ..m.servers[id] })
            }
        } else {
            self
        }
    }

    /// Whether a load of tools is the one that is under way for a server.
    pub open spec fn awaits_tools(self, id: Seq<char>, load: u64) -> bool {
        self.servers.contains_key(id) && self.servers[id].load_tools == Some(load)
    }

    /// Whether a load of prompts is the one that is under way for a server.
    pub open spec fn awaits_prompts(self, id: Seq<char>, load: u64) -> bool {
        self.servers.contains_key(id) && self.servers[id].load_prompts == Some(load)
    }

    /// The registry after a load of tools was answered: the server has the
    /// tools that it listed, and none where the load failed.
    pub open spec fn tools_loaded(
        self,
        id: ContextServerId,
        load: u64,
        tools: Option<Seq<Tool>>,
    ) -> RegistryModel {
        if self.awaits_tools(id@, load) {
            self.with(
                id@,
                ServerModel {
                    tools: match tools {
                        Some(tools) => tools_by_name(id, tools),
                        None => Map::empty(),
                    },
                    load_tools: None,
                    ..self.servers[id@]
                },
            )
        } else {
            self
        }
    }

    /// The registry after a load of prompts was answered.
    pub open spec fn prompts_loaded(
        self,
        id: ContextServerId,
        load: u64,
        prompts: Option<Seq<Prompt>>,
    ) -> RegistryModel {
        if self.awaits_prompts(id@, load) {
            self.with(
                id@,
                ServerModel {
                    prompts: match prompts {
                        Some(prompts) => prompts_by_name(id, prompts),
                        None => Map::empty(),
                    },
                    load_prompts: None,
                    ..self.servers[id@]
                },
            )
        } else {
            self
        }
    }

    /// Whether a server has a prompt of this name.
    pub open spec fn has_prompt(self, id: Seq<char>, name: Seq<char>) -> bool {
        self.servers.contains_key(id) && self.servers[id].prompts.contains_key(name)
    }

    /// The registry after a server failed: it is no longer listened to, and
    /// nothing is being loaded from it, but it keeps what it offered.
    pub open spec fn failed(self, id: Seq<char>) -> RegistryModel {
        if self.servers.contains_key(id) {
            self.with(
                id,
                ServerModel {
                    load_tools: None,
                    load_prompts: None,
                    subscribed: false,
                    ..self.servers[id]
                },
            )
        } else {
            self
        }
    }

    /// The registry without a server.
    pub open spec fn without(self, id: Seq<char>) -> RegistryModel {
        RegistryModel { servers: self.servers.remove(id), ..self }
    }

    /// The registry after the status of a server changed to this.
    pub open spec fn status_changed(
        self,
        id: Seq<char>,
        status: ContextServerStatus,
        client: Option<ServerClient>,
    ) -> RegistryModel {
        match status {
            ContextServerStatus::Starting | ContextServerStatus::Authenticating => self,
            ContextServerStatus::Running => self.refreshed(id, client).reloading_tools(
                id,
                client,
            ).reloading_prompts(id, client),
            ContextServerStatus::Error(_) => self.failed(id),
            _ => self.without(id),
        }
    }

    /// The registry after these running servers were found, one by one.
    pub open spec fn found(self, servers: Seq<RunningServer>) -> RegistryModel
        decreases servers.len(),
    {
        if servers.len() == 0 {
            self
        } else {
            let last = servers.last();
            self.found(servers.drop_last()).registered(last.id@, last.client).reloading_tools(
                last.id@,
                last.client,
            ).reloading_prompts(last.id@, last.client)
        }
    }
}

fn collect_tools(server_id: &ContextServerId, tools: Vec<Tool>) -> (r: OrderedMap<ContextServerTool>)
    ensures
        r.wf(),
        r@ == tools_by_name(*server_id, tools@),
        forall|name: Seq<char>| #[trigger]
            r@.contains_key(name) ==> r@[name].tool.name@ == name && r@[name].server_id@
                == server_id@,
{
    let mut out: OrderedMap<ContextServerTool> = OrderedMap::new();
    let ghost all = tools@;
    for tool in it: tools
        invariant
            it.seq() == all,
            out.wf(),
            out@ == tools_by_name(*server_id, all.take(it.index())),
            forall|name: Seq<char>| #[trigger]
                out@.contains_key(name) ==> out@[name].tool.name@ == name
                    && out@[name].server_id@ == server_id@,
    {
        proof {
            let i = it.index();
            assert(all.take(i + 1).drop_last() =~= all.take(i));
            assert(all.take(i + 1).last() == tool);
        }
        let name = tool.name.clone();
        out.insert(name, ContextServerTool::new(server_id.0.clone(), tool));
    }
    assert(all.take(all.len() as int) =~= all);
    out
}

fn collect_prompts(server_id: &ContextServerId, prompts: Vec<Prompt>) -> (r: OrderedMap<
    ContextServerPrompt,
>)
    ensures
        r.wf(),
        r@ == prompts_by_name(*server_id, prompts@),
        forall|name: Seq<char>| #[trigger]
            r@.contains_key(name) ==> r@[name].prompt.name@ == name && r@[name].server_id@
                == server_id@,
{
    let mut out: OrderedMap<ContextServerPrompt> = OrderedMap::new();
    let ghost all = prompts@;
    for prompt in it: prompts
        invariant
            it.seq() == all,
            out.wf(),
            out@ == prompts_by_name(*server_id, all.take(it.index())),
            forall|name: Seq<char>| #[trigger]
                out@.contains_key(name) ==> out@[name].prompt.name@ == name
                    && out@[name].server_id@ == server_id@,
    {
        proof {
            let i = it.index();
            assert(all.take(i + 1).drop_last() =~= all.take(i));
            assert(all.take(i + 1).last() == prompt);
        }
        let name = prompt.name.clone();
        out.insert(name, ContextServerPrompt { server_id: server_id.clone(), prompt });
    }
    assert(all.take(all.len() as int) =~= all);
    out
}

/// The registry of context servers.
pub struct ContextServerRegistry {
    server_store: u64,
    registered_servers: AssocMap<ContextServerId, RegisteredContextServer>,
    next_load: u64,
}

impl View for ContextServerRegistry {
    type V = RegistryModel;

    closed spec fn view(&self) -> RegistryModel {
        RegistryModel {
            server_store: self.server_store,
            servers: self.registered_servers@.map_values(|server: RegisteredContextServer| server@),
            next_load: self.next_load,
        }
    }
}

/// What a running server said of itself.
pub open spec fn client_said(running: Option<&RunningServer>) -> Option<ServerClient> {
    match running {
        Some(server) => server.client,
        None => None,
    }
}

fn client_ref(running: Option<&RunningServer>) -> (r: Option<&ServerClient>)
    ensures
        r is Some == client_said(running) is Some,
        r matches Some(client) ==> Some(*client) == client_said(running),
{
    match running {
        Some(server) => match &server.client {
            Some(client) => Some(client),
            None => None,
        },
        None => None,
    }
}

impl ContextServerRegistry {
    /// The registry is consistent.
    pub closed spec fn wf(&self) -> bool {
        &&& self.registered_servers.wf()
        &&& forall|id: Seq<char>| #[trigger]
            self.registered_servers@.contains_key(id) ==> self.registered_servers@[id].wf()
        &&& self@.wf()
    }

    /// The model of a consistent registry is consistent.
    pub proof fn wf_model(&self)
        requires
            self.wf(),
        ensures
            self@.wf(),
    {
    }

    /// What is known of a server that only said this of itself.
    fn init_registered_server(running: Option<&RunningServer>) -> (r: RegisteredContextServer)
        ensures
            r.wf(),
            r@ == ServerModel::initial(client_said(running)),
    {
        let mut instructions: Option<String> = None;
        let mut tools_updated_subscription = false;
        if let Some(client) = client_ref(running) {
            tools_updated_subscription = client.tools;
            if let Some(text) = &client.instructions {
                instructions = normalize_server_instructions(text.as_str());
            }
        }
        RegisteredContextServer {
            tools: OrderedMap::new(),
            prompts: OrderedMap::new(),
            instructions,
            load_tools: None,
            load_prompts: None,
            tools_updated_subscription,
        }
    }

    /// Puts in what is known of a server.
    fn put(&mut self, server_id: &ContextServerId, server: RegisteredContextServer)
        requires
            old(self).wf(),
            server.wf(),
            server@.wf(server_id@),
            server@.load_tools matches Some(load) ==> load < old(self)@.next_load,
            server@.load_prompts matches Some(load) ==> load < old(self)@.next_load,
        ensures
            final(self).wf(),
            final(self)@ == old(self)@.with(server_id@, server@),
    {
        let ghost before = *self;
        self.registered_servers.insert(server_id.clone(), server);
        assert(self@ =~= before@.with(server_id@, server@)) by {
            assert(self@.servers =~= before@.servers.insert(server_id@, server@));
        }
    }

    /// Takes out what is known of a server.
    fn take(&mut self, server_id: &ContextServerId) -> (r: Option<RegisteredContextServer>)
        requires
            old(self).wf(),
        ensures
            final(self).wf(),
            final(self)@ == old(self)@.without(server_id@),
            r is Some == old(self)@.servers.contains_key(server_id@),
            r matches Some(server) ==> server.wf() && server@ == old(self)@.servers[server_id@],
    {
        let ghost before = *self;
        let r = self.registered_servers.remove(server_id);
        assert(self@ =~= before@.without(server_id@)) by {
            assert(self@.servers =~= before@.servers.remove(server_id@));
        }
        r
    }

    fn get(&self, server_id: &ContextServerId) -> (r: Option<&RegisteredContextServer>)
        requires
            self.wf(),
        ensures
            r is Some == self@.servers.contains_key(server_id@),
            r matches Some(server) ==> server.wf() && server@ == self@.servers[server_id@],
    {
        self.registered_servers.get(server_id)
    }

    /// Sees to it that a server is known.
    fn get_or_register_server(
        &mut self,
        server_id: &ContextServerId,
        running: Option<&RunningServer>,
    )
        requires
            old(self).wf(),
        ensures
            final(self).wf(),
            final(self)@ == old(self)@.registered(server_id@, client_said(running)),
    {
        if self.get(server_id).is_none() {
            let server = Self::init_registered_server(running);
            self.put(server_id, server);
        }
    }

    /// Takes note that a server began to run.
    fn refresh_server_registration(
        &mut self,
        server_id: &ContextServerId,
        running: Option<&RunningServer>,
    )
        requires
            old(self).wf(),
        ensures
            final(self).wf(),
            final(self)@ == old(self)@.refreshed(server_id@, client_said(running)),
    {
        let ghost before = self@;
        let mut replacement = Self::init_registered_server(running);
        if let Some(previous) = self.take(server_id) {
            replacement.tools = previous.tools;
            replacement.prompts = previous.prompts;
        }
        let ghost after = replacement@;
        self.put(server_id, replacement);
        proof {
            assert(self@ =~= before.with(server_id@, after)) by {
                assert(self@.servers =~= before.servers.insert(server_id@, after));
            }
        }
    }

    /// Asks for the tools of a server, where it offers any. `running` is the
    /// server as its store presents it.
    pub fn reload_tools_for_server(
        &mut self,
        server_id: &ContextServerId,
        running: Option<&RunningServer>,
    ) -> (r: Option<u64>)
        requires
            old(self).wf(),
            old(self)@.next_load < u64::MAX,
        ensures
            final(self).wf(),
            final(self)@ == old(self)@.reloading_tools(server_id@, client_said(running)),
            r == (if client_said(running) is Some && client_said(running)->0.tools {
                Some(old(self)@.next_load)
            } else {
                None
            }),
    {
        match client_ref(running) {
            Some(client) => {
                if !client.tools {
                    return None;
                }
            },
            None => {
                return None;
            },
        }
        self.get_or_register_server(server_id, running);
        let ghost known = self@;
        let load: u64 = self.next_load;
        let mut server = match self.take(server_id) {
            Some(server) => server,
            None => {
                return None;
            },
        };
        server.load_tools = Some(load);
        self.next_load = load + 1;
        let ghost after = server@;
        self.put(server_id, server);
        proof {
            assert(self@.servers =~= known.servers.insert(server_id@, after));
        }
        Some(load)
    }

    /// Asks for the prompts of a server, where it offers any. `running` is the
    /// server as its store presents it.
    pub fn reload_prompts_for_server(
        &mut self,
        server_id: &ContextServerId,
        running: Option<&RunningServer>,
    ) -> (r: Option<u64>)
        requires
            old(self).wf(),
            old(self)@.next_load < u64::MAX,
        ensures
            final(self).wf(),
            final(self)@ == old(self)@.reloading_prompts(server_id@, client_said(running)),
            r == (if client_said(running) is Some && client_said(running)->0.prompts {
                Some(old(self)@.next_load)
            } else {
                None
            }),
    {
        match client_ref(running) {
            Some(client) => {
                if !client.prompts {
                    return None;
                }
            },
            None => {
                return None;
            },
        }
        self.get_or_register_server(server_id, running);
        let ghost known = self@;
        let load: u64 = self.next_load;
        let mut server = match self.take(server_id) {
            Some(server) => server,
            None => {
                return None;
            },
        };
        server.load_prompts = Some(load);
        self.next_load = load + 1;
        let ghost after = server@;
        self.put(server_id, server);
        proof {
            assert(self@.servers =~= known.servers.insert(server_id@, after));
        }
        Some(load)
    }

    /// Takes note of what a server answered to a load of its tools; nothing,
    /// where the load failed.
    pub fn tools_loaded(
        &mut self,
        server_id: &ContextServerId,
        load: u64,
        response: Option<Vec<Tool>>,
    ) -> (r: RegistryEffects)
        requires
            old(self).wf(),
        ensures
            final(self).wf(),
            final(self)@ == old(self)@.tools_loaded(
                *server_id,
                load,
                match response {
                    Some(tools) => Some(tools@),
                    None => None,
                },
            ),
            r.notify == (old(self)@.awaits_tools(server_id@, load) && response is Some),
            r.events@ == (if r.notify {
                seq![ContextServerRegistryEvent::ToolsChanged]
            } else {
                Seq::empty()
            }),
    {
        let ghost before = self@;
        let mut events: Vec<ContextServerRegistryEvent> = Vec::new();
        let awaited = match self.get(server_id) {
            Some(server) => server.load_tools == Some(load),
            None => false,
        };
        if !awaited {
            return RegistryEffects { events, notify: false };
        }
        let mut server = match self.take(server_id) {
            Some(server) => server,
            None => {
                return RegistryEffects { events, notify: false };
            },
        };
        server.load_tools = None;
        let mut notify = false;
        match response {
            Some(tools) => {
                server.tools = collect_tools(server_id, tools);
                events.push(ContextServerRegistryEvent::ToolsChanged);
                notify = true;
            },
            None => {
                server.tools = OrderedMap::new();
            },
        }
        let ghost after = server@;
        self.put(server_id, server);
        proof {
            assert(self@.servers =~= before.servers.insert(server_id@, after));
        }
        RegistryEffects { events, notify }
    }

    /// Takes note of what a server answered to a load of its prompts; nothing,
    /// where the load failed.
    pub fn prompts_loaded(
        &mut self,
        server_id: &ContextServerId,
        load: u64,
        response: Option<Vec<Prompt>>,
    ) -> (r: RegistryEffects)
        requires
            old(self).wf(),
        ensures
            final(self).wf(),
            final(self)@ == old(self)@.prompts_loaded(
                *server_id,
                load,
                match response {
                    Some(prompts) => Some(prompts@),
                    None => None,
                },
            ),
            r.notify == (old(self)@.awaits_prompts(server_id@, load) && response is Some),
            r.events@ == (if r.notify {
                seq![ContextServerRegistryEvent::PromptsChanged]
            } else {
                Seq::empty()
            }),
    {
        let ghost before = self@;
        let mut events: Vec<ContextServerRegistryEvent> = Vec::new();
        let awaited = match self.get(server_id) {
            Some(server) => server.load_prompts == Some(load),
            None => false,
        };
        if !awaited {
            return RegistryEffects { events, notify: false };
        }
        let mut server = match self.take(server_id) {
            Some(server) => server,
            None => {
                return RegistryEffects { events, notify: false };
            },
        };
        server.load_prompts = None;
        let mut notify = false;
        match response {
            Some(prompts) => {
                server.prompts = collect_prompts(server_id, prompts);
                events.push(ContextServerRegistryEvent::PromptsChanged);
                notify = true;
            },
            None => {
                server.prompts = OrderedMap::new();
            },
        }
        let ghost after = server@;
        self.put(server_id, server);
        proof {
            assert(self@.servers =~= before.servers.insert(server_id@, after));
        }
        RegistryEffects { events, notify }
    }

    /// Takes note that a server said that its tools changed: they are asked for
    /// again, as long as the server is listened to.
    pub fn tools_list_changed(
        &mut self,
        server_id: &ContextServerId,
        running: Option<&RunningServer>,
    ) -> (r: Option<u64>)
        requires
            old(self).wf(),
            old(self)@.next_load < u64::MAX,
        ensures
            final(self).wf(),
            ({
                let listened = old(self)@.servers.contains_key(server_id@) && old(
                    self,
                )@.servers[server_id@].subscribed;
                &&& listened ==> final(self)@ == old(self)@.reloading_tools(
                    server_id@,
                    client_said(running),
                )
                &&& !listened ==> final(self)@ == old(self)@
                &&& r == (if listened && client_said(running) is Some && client_said(
                    running,
                )->0.tools {
                    Some(old(self)@.next_load)
                } else {
                    None
                })
            }),
    {
        let listened = match self.get(server_id) {
            Some(server) => server.tools_updated_subscription,
            None => false,
        };
        if listened {
            self.reload_tools_for_server(server_id, running)
        } else {
            None
        }
    }

    /// Takes note that the status of a server changed. `running` is the server
    /// as its store presents it. Says what to load, and whom to tell.
    pub fn handle_context_server_store_event(
        &mut self,
        server_id: &ContextServerId,
        status: &ContextServerStatus,
        running: Option<&RunningServer>,
    ) -> (r: (Vec<LoadRequest>, RegistryEffects))
        requires
            old(self).wf(),
            old(self)@.next_load < u64::MAX - 1,
        ensures
            final(self).wf(),
            final(self)@ == old(self)@.status_changed(server_id@, *status, client_said(running)),
            r.0@ == (if status is Running {
                load_requests(*server_id, client_said(running), old(self)@.next_load)
            } else {
                Seq::empty()
            }),
            r.1.notify == !(status is Starting || status is Authenticating || status is Running),
            r.1.events@ == (if status is Stopped || status is AuthRequired
                || status is ClientSecretRequired {
                departure_events(old(self)@, server_id@)
            } else {
                Seq::empty()
            }),
    {
        let mut loads: Vec<LoadRequest> = Vec::new();
        let mut events: Vec<ContextServerRegistryEvent> = Vec::new();
        let ghost before = self@;
        match status {
            ContextServerStatus::Starting | ContextServerStatus::Authenticating => {
                (loads, RegistryEffects { events, notify: false })
            },
            ContextServerStatus::Running => {
                self.refresh_server_registration(server_id, running);
                if let Some(load) = self.reload_tools_for_server(server_id, running) {
                    loads.push(LoadRequest::Tools { server_id: server_id.clone(), load });
                }
                if let Some(load) = self.reload_prompts_for_server(server_id, running) {
                    loads.push(LoadRequest::Prompts { server_id: server_id.clone(), load });
                }
                assert(loads@ =~= load_requests(
                    *server_id,
                    client_said(running),
                    before.next_load,
                ));
                (loads, RegistryEffects { events, notify: false })
            },
            ContextServerStatus::Error(_) => {
                if let Some(server) = self.take(server_id) {
                    let mut server = server;
                    server.load_tools = None;
                    server.load_prompts = None;
                    server.tools_updated_subscription = false;
                    let ghost after = server@;
                    self.put(server_id, server);
                    assert(self@.servers =~= before.servers.insert(server_id@, after));
                } else {
                    assert(self@.servers =~= before.servers);
                }
                (loads, RegistryEffects { events, notify: true })
            },
            ContextServerStatus::Stopped | ContextServerStatus::AuthRequired
            | ContextServerStatus::ClientSecretRequired => {
                if let Some(server) = self.take(server_id) {
                    if !server.tools.is_empty() {
                        events.push(ContextServerRegistryEvent::ToolsChanged);
                    }
                    if !server.prompts.is_empty() {
                        events.push(ContextServerRegistryEvent::PromptsChanged);
                    }
                }
                assert(events@ =~= departure_events(before, server_id@));
                (loads, RegistryEffects { events, notify: true })
            },
        }
    }

    /// A registry of the servers of a store, of which these are running. Says
    /// what to load.
    pub fn new(server_store: u64, running: Vec<RunningServer>) -> (r: (Self, Vec<LoadRequest>))
        requires
            running@.len() < u64::MAX / 2,
        ensures
            r.0.wf(),
            r.0@ == (RegistryModel {
                server_store,
                servers: Map::empty(),
                next_load: 0,
            }).found(running@),
            r.1@ == found_requests(
                RegistryModel { server_store, servers: Map::empty(), next_load: 0 },
                running@,
            ),
    {
        let ghost start = RegistryModel { server_store, servers: Map::empty(), next_load: 0 };
        let mut this = ContextServerRegistry {
            server_store,
            registered_servers: AssocMap::new(),
            next_load: 0,
        };
        assert(this@ =~= start) by {
            assert(this@.servers =~= start.servers);
        }
        let mut loads: Vec<LoadRequest> = Vec::new();
        let mut i: usize = 0;
        assert(running@.take(0) =~= Seq::empty());
        while i < running.len()
            invariant
                i <= running@.len(),
                running@.len() < u64::MAX / 2,
                this.wf(),
                this@ == start.found(running@.take(i as int)),
                this@.next_load <= 2 * i,
                loads@ == found_requests(start, running@.take(i as int)),
            decreases running@.len() - i,
        {
            let server = &running[i];
            let ghost before = this@;
            proof {
                assert(running@.take(i + 1).drop_last() =~= running@.take(i as int));
                assert(running@.take(i + 1).last() == *server);
            }
            this.get_or_register_server(&server.id, Some(server));
            if let Some(load) = this.reload_tools_for_server(&server.id, Some(server)) {
                loads.push(LoadRequest::Tools { server_id: server.id.clone(), load });
            }
            if let Some(load) = this.reload_prompts_for_server(&server.id, Some(server)) {
                loads.push(LoadRequest::Prompts { server_id: server.id.clone(), load });
            }
            assert(loads@ =~= found_requests(start, running@.take(i + 1)));
            i = i + 1;
        }
        assert(running@.take(i as int) =~= running@);
        (this, loads)
    }

    /// The store of the servers.
    pub fn server_store(&self) -> (r: u64)
        ensures
            r == self@.server_store,
    {
        self.server_store
    }

    /// The tools of a server, in the order of their names; none, where the
    /// server is not known.
    pub fn tools_for_server(&self, server_id: &ContextServerId) -> (r: Vec<&ContextServerTool>)
        requires
            self.wf(),
        ensures
            self@.servers.contains_key(server_id@) ==> are_values_of(
                r@.map_values(|tool: &ContextServerTool| *tool),
                self@.servers[server_id@].tools,
            ),
            !self@.servers.contains_key(server_id@) ==> r@.len() == 0,
    {
        match self.get(server_id) {
            Some(server) => server.tools.values(),
            None => Vec::new(),
        }
    }

    /// The servers with their tools.
    pub fn servers(&self) -> (r: Vec<(&ContextServerId, &OrderedMap<ContextServerTool>)>)
        requires
            self.wf(),
        ensures
            is_roster(Seq::new(r@.len(), |i: int| r@[i].0@), self@),
            forall|i: int|
                0 <= i < r@.len() ==> (#[trigger] r@[i]).1.wf() && r@[i].1@
                    == self@.servers[r@[i].0@].tools,
    {
        let mut out: Vec<(&ContextServerId, &OrderedMap<ContextServerTool>)> = Vec::new();
        let ghost keys = self.registered_servers.keys();
        let mut i: usize = 0;
        while i < self.registered_servers.len()
            invariant
                self.wf(),
                keys == self.registered_servers.keys(),
                i <= keys.len(),
                out@.len() == i,
                forall|j: int| 0 <= j < i ==> (#[trigger] out@[j]).0@ == keys[j],
                forall|j: int|
                    0 <= j < i ==> (#[trigger] out@[j]).1.wf() && out@[j].1@
                        == self@.servers[out@[j].0@].tools,
            decreases keys.len() - i,
        {
            let id = self.registered_servers.key_at(i);
            let server = self.registered_servers.value_at(i);
            out.push((id, &server.tools));
            i = i + 1;
        }
        proof {
            self.lemma_roster();
            assert(Seq::new(out@.len(), |i: int| out@[i].0@) =~= keys);
        }
        out
    }

    /// The keys of the servers are a roster of them.
    proof fn lemma_roster(&self)
        requires
            self.wf(),
        ensures
            is_roster(self.registered_servers.keys(), self@),
    {
        let keys = self.registered_servers.keys();
        self.registered_servers.keys_are_the_domain();
        assert(self@.servers.dom() =~= self.registered_servers@.dom());
        assert forall|i: int, j: int|
            0 <= i < keys.len() && 0 <= j < keys.len() && i != j implies keys[i] != keys[j] by {
            if i < j {
                assert(keys[i] != keys[j]);
            } else {
                assert(keys[j] != keys[i]);
            }
        }
    }

    /// The prompts of all servers: server by server, those of one server in the
    /// order of their names.
    pub fn prompts(&self) -> (r: Vec<&ContextServerPrompt>)
        requires
            self.wf(),
        ensures
            exists|ids: Seq<Seq<char>>| #[trigger]
                is_roster(ids, self@) && are_prompts_of(
                    r@.map_values(|prompt: &ContextServerPrompt| *prompt),
                    self@,
                    ids,
                ),
    {
        let mut out: Vec<&ContextServerPrompt> = Vec::new();
        let ghost keys = self.registered_servers.keys();
        let mut i: usize = 0;
        while i < self.registered_servers.len()
            invariant
                self.wf(),
                keys == self.registered_servers.keys(),
                i <= keys.len(),
                are_prompts_of(
                    out@.map_values(|prompt: &ContextServerPrompt| *prompt),
                    self@,
                    keys.take(i as int),
                ),
            decreases keys.len() - i,
        {
            let server = self.registered_servers.value_at(i);
            let mut more = server.prompts.values();
            let ghost before = out@.map_values(|prompt: &ContextServerPrompt| *prompt);
            let ghost added = more@.map_values(|prompt: &ContextServerPrompt| *prompt);
            out.append(&mut more);
            proof {
                let now = out@.map_values(|prompt: &ContextServerPrompt| *prompt);
                let k = before.len() as int;
                assert(now.take(k) =~= before);
                assert(now.skip(k) =~= added);
                assert(keys.take(i + 1).drop_last() =~= keys.take(i as int));
                assert(keys.take(i + 1).last() == keys[i as int]);
                assert(self@.servers[keys[i as int]] == server@);
                assert(are_values_of(now.skip(k), self@.servers[keys[i as int]].prompts));
            }
            i = i + 1;
        }
        proof {
            self.lemma_roster();
            assert(keys.take(i as int) =~= keys);
        }
        out
    }

    /// The instructions of all servers that gave any, rendered as one text.
    /// There is no text where no server gave instructions.
    pub fn rendered_instructions(&self) -> (r: Option<String>)
        requires
            self.wf(),
        ensures
            r is None == (forall|id: Seq<char>| #[trigger]
                self@.servers.contains_key(id) ==> self@.servers[id].instructions is None),
            r matches Some(text) ==> exists|order: Seq<Section>| #[trigger]
                is_instruction_order(order, self@) && text@ == rendered(order),
    {
        let mut sections: Vec<(&str, &str)> = Vec::new();
        let ghost keys = self.registered_servers.keys();
        proof {
            self.lemma_roster();
        }
        let mut i: usize = 0;
        while i < self.registered_servers.len()
            invariant
                self.wf(),
                keys == self.registered_servers.keys(),
                is_roster(keys, self@),
                i <= keys.len(),
                forall|section: Section| #[trigger]
                    section_models(sections@).contains(section) == (exists|j: int|
                        0 <= j < i && keys[j] == section.0 && (
                        #[trigger] self@.servers[keys[j]]).instructions == Some(section.1)),
                distinct_ids(section_models(sections@)),
            decreases keys.len() - i,
        {
            let id = self.registered_servers.key_at(i);
            let server = self.registered_servers.value_at(i);
            let ghost before = section_models(sections@);
            assert(self@.servers[keys[i as int]] == server@);
            if let Some(text) = &server.instructions {
                sections.push((id.0.as_str(), text.as_str()));
                proof {
                    let added = (id@, text@);
                    let now = section_models(sections@);
                    assert(now =~= before.push(added));
                    assert forall|section: Section| #[trigger] now.contains(section) == (exists|j: int|
                        0 <= j < i + 1 && keys[j] == section.0 && (
                        #[trigger] self@.servers[keys[j]]).instructions == Some(section.1)) by {
                        assert(now[before.len() as int] == added);
                        if before.contains(section) {
                            let k = choose|k: int| 0 <= k < before.len() && before[k] == section;
                            assert(now[k] == section);
                        }
                        if now.contains(section) && section != added {
                            let k = choose|k: int| 0 <= k < now.len() && now[k] == section;
                            assert(before[k] == section);
                            assert(before.contains(section));
                        }
                    }
                    assert forall|a: int, b: int|
                        #![trigger now[a], now[b]]
                        0 <= a < b < now.len() implies now[a].0 != now[b].0 by {
                        assert(now[a] == before[a]);
                        assert(before.contains(before[a]));
                        if b < before.len() {
                            assert(now[b] == before[b]);
                        }
                    }
                }
            } else {
                assert forall|section: Section| #[trigger] before.contains(section) == (exists|j: int|
                    0 <= j < i + 1 && keys[j] == section.0 && (
                    #[trigger] self@.servers[keys[j]]).instructions == Some(section.1)) by {}
            }
            i = i + 1;
        }
        let ghost models = section_models(sections@);
        proof {
            assert forall|id: Seq<char>| #[trigger] self@.servers.contains_key(id) implies exists|j: int|
                0 <= j < keys.len() && keys[j] == id && (#[trigger] self@.servers[keys[j]])
                    == self@.servers[id] by {
                assert(keys.to_set().contains(id));
                let j = choose|j: int| 0 <= j < keys.len() && keys[j] == id;
                assert(self@.servers[keys[j]] == self@.servers[id]);
            }
            assert forall|j: int| 0 <= j < keys.len() implies self@.servers.contains_key(
                #[trigger] keys[j],
            ) by {
                assert(keys.to_set().contains(keys[j]));
            }
            assert forall|section: Section| #[trigger] models.contains(section) == (
            self@.servers.contains_key(section.0) && self@.servers[section.0].instructions == Some(
                section.1,
            )) by {}
            if models.len() > 0 {
                assert(models.contains(models[0]));
            } else {
                assert forall|id: Seq<char>| #[trigger]
                    self@.servers.contains_key(id) implies self@.servers[id].instructions is None by {
                    if let Some(text) = self@.servers[id].instructions {
                        assert(models.contains((id, text)));
                    }
                }
            }
        }
        let r = render_context_server_instructions(sections);
        proof {
            assert forall|order: Seq<Section>| #[trigger]
                is_order_of(order, models) implies is_instruction_order(order, self@) by {
                distinct_ids_carry_over(models, order);
                assert forall|section: Section| #[trigger]
                    order.contains(section) == models.contains(section) by {
                    to_multiset_contains(order, section);
                    to_multiset_contains(models, section);
                }
            }
        }
        r
    }

    /// Finds a prompt by name: that of the given server, or else that of any
    /// server.
    pub fn find_prompt(&self, server_id: Option<&ContextServerId>, name: &str) -> (r: Option<
        &ContextServerPrompt,
    >)
        requires
            self.wf(),
        ensures
            server_id matches Some(id) ==> r is Some == self@.has_prompt(id@, name@),
            server_id is None ==> r is Some == (exists|id: Seq<char>| #[trigger]
                self@.has_prompt(id, name@)),
            r matches Some(prompt) ==> {
                &&& self@.has_prompt(prompt.server_id@, name@)
                &&& *prompt == self@.servers[prompt.server_id@].prompts[name@]
                &&& server_id matches Some(id) ==> prompt.server_id@ == id@
            },
    {
        match server_id {
            Some(server_id) => match self.get(server_id) {
                Some(server) => server.prompts.get(name),
                None => None,
            },
            None => {
                let ghost keys = self.registered_servers.keys();
                proof {
                    self.lemma_roster();
                }
                let mut i: usize = 0;
                while i < self.registered_servers.len()
                    invariant
                        self.wf(),
                        server_id is None,
                        keys == self.registered_servers.keys(),
                        is_roster(keys, self@),
                        i <= keys.len(),
                        forall|j: int| 0 <= j < i ==> !self@.has_prompt(#[trigger] keys[j], name@),
                    decreases keys.len() - i,
                {
                    let server = self.registered_servers.value_at(i);
                    assert(self@.servers[keys[i as int]] == server@);
                    assert(self@.servers.contains_key(keys[i as int]));
                    if let Some(prompt) = server.prompts.get(name) {
                        assert(self@.has_prompt(keys[i as int], name@));
                        return Some(prompt);
                    }
                    i = i + 1;
                }
                assert forall|id: Seq<char>| !#[trigger] self@.has_prompt(id, name@) by {
                    if self@.has_prompt(id, name@) {
                        assert(keys.to_set().contains(id));
                    }
                }
                None
            },
        }
    }
}

/// Whether these are the servers of the registry, each of them once.
pub open spec fn is_roster(ids: Seq<Seq<char>>, m: RegistryModel) -> bool {
    ids.no_duplicates() && ids.to_set() == m.servers.dom()
}

/// Whether these are the prompts of the servers, server by server in the given
/// order, those of one server in the order of their names.
pub open spec fn are_prompts_of(
    listed: Seq<ContextServerPrompt>,
    m: RegistryModel,
    ids: Seq<Seq<char>>,
) -> bool
    decreases ids.len(),
{
    if ids.len() == 0 {
        listed.len() == 0
    } else {
        exists|k: int|
            0 <= k <= listed.len() && are_prompts_of(listed.take(k), m, ids.drop_last())
                && are_values_of(#[trigger] listed.skip(k), m.servers[ids.last()].prompts)
    }
}

/// Whether these are the instructions of the servers that gave any, in the
/// order of the servers' identifiers.
pub open spec fn is_instruction_order(order: Seq<Section>, m: RegistryModel) -> bool {
    &&& ordered_by_id(order)
    &&& distinct_ids(order)
    &&& forall|section: Section| #[trigger]
        order.contains(section) == (m.servers.contains_key(section.0)
            && m.servers[section.0].instructions == Some(section.1))
}

/// What is to be loaded from a server that begins to run, where the next load
/// has this number.
pub open spec fn load_requests(
    id: ContextServerId,
    client: Option<ServerClient>,
    next_load: u64,
) -> Seq<LoadRequest> {
    match client {
        Some(client) => match (client.tools, client.prompts) {
            (true, true) => seq![
                LoadRequest::Tools { server_id: id, load: next_load },
                LoadRequest::Prompts { server_id: id, load: (next_load + 1) as u64 },
            ],
            (true, false) => seq![LoadRequest::Tools { server_id: id, load: next_load }],
            (false, true) => seq![LoadRequest::Prompts { server_id: id, load: next_load }],
            (false, false) => Seq::empty(),
        },
        None => Seq::empty(),
    }
}

/// What is to be loaded from running servers that are found one by one.
pub open spec fn found_requests(m: RegistryModel, servers: Seq<RunningServer>) -> Seq<LoadRequest>
    decreases servers.len(),
{
    if servers.len() == 0 {
        Seq::empty()
    } else {
        found_requests(m, servers.drop_last()) + load_requests(
            servers.last().id,
            servers.last().client,
            m.found(servers.drop_last()).next_load,
        )
    }
}

/// What the registry tells when a server goes away: that tools changed, where
/// it had any, and that prompts changed, where it had any.
pub open spec fn departure_events(m: RegistryModel, id: Seq<char>) -> Seq<ContextServerRegistryEvent> {
    if m.servers.contains_key(id) {
        (if m.servers[id].tools == Map::<Seq<char>, ContextServerTool>::empty() {
            Seq::empty()
        } else {
            seq![ContextServerRegistryEvent::ToolsChanged]
        }) + (if m.servers[id].prompts == Map::<Seq<char>, ContextServerPrompt>::empty() {
            Seq::empty()
        } else {
            seq![ContextServerRegistryEvent::PromptsChanged]
        })
    } else {
        Seq::empty()
    }
}

/// A server that failed keeps the tools, prompts and instructions that it had.
pub proof fn failed_server_keeps_what_it_offered(
    m: RegistryModel,
    id: Seq<char>,
    status: ContextServerStatus,
    client: Option<ServerClient>,
)
    requires
        status is Error,
        m.servers.contains_key(id),
    ensures
        ({
            let after = m.status_changed(id, status, client);
            &&& after.servers.contains_key(id)
            &&& after.servers[id].tools == m.servers[id].tools
            &&& after.servers[id].prompts == m.servers[id].prompts
            &&& after.servers[id].instructions == m.servers[id].instructions
        }),
{
}

/// A server that runs again keeps the tools and prompts that it had until it
/// lists them anew; its instructions are those that it gives now.
pub proof fn restarted_server_keeps_what_it_offered(
    m: RegistryModel,
    id: Seq<char>,
    client: Option<ServerClient>,
)
    requires
        m.servers.contains_key(id),
    ensures
        ({
            let after = m.status_changed(id, ContextServerStatus::Running, client);
            &&& after.servers.contains_key(id)
            &&& after.servers[id].tools == m.servers[id].tools
            &&& after.servers[id].prompts == m.servers[id].prompts
            &&& after.servers[id].instructions == ServerModel::initial(client).instructions
        }),
{
}

/// Once a server failed, stopped or waits for somebody to sign in, the answers
/// that were still to come from it change nothing.
pub proof fn answers_of_a_lost_server_are_ignored(
    m: RegistryModel,
    id: ContextServerId,
    status: ContextServerStatus,
    client: Option<ServerClient>,
    load: u64,
    tools: Option<Seq<Tool>>,
    prompts: Option<Seq<Prompt>>,
)
    requires
        !(status is Starting || status is Authenticating || status is Running),
    ensures
        ({
            let after = m.status_changed(id@, status, client);
            &&& after.tools_loaded(id, load, tools) == after
            &&& after.prompts_loaded(id, load, prompts) == after
        }),
{
}

/// Once the tools of a server are asked for again, an answer to an earlier
/// question changes nothing, and the answer to this one is what counts.
pub proof fn only_the_latest_answer_counts(
    m: RegistryModel,
    id: ContextServerId,
    client: ServerClient,
    load: u64,
    tools: Seq<Tool>,
)
    requires
        m.wf(),
        m.next_load < u64::MAX,
        client.tools,
    ensures
        ({
            let asked = m.reloading_tools(id@, Some(client));
            &&& load < m.next_load ==> asked.tools_loaded(id, load, Some(tools)) == asked
            &&& asked.tools_loaded(id, m.next_load, Some(tools)).servers[id@].tools
                == tools_by_name(id, tools)
        }),
{
}

/// The same holds of prompts.
pub proof fn only_the_latest_list_of_prompts_counts(
    m: RegistryModel,
    id: ContextServerId,
    client: ServerClient,
    load: u64,
    prompts: Seq<Prompt>,
)
    requires
        m.wf(),
        m.next_load < u64::MAX,
        client.prompts,
    ensures
        ({
            let asked = m.reloading_prompts(id@, Some(client));
            &&& load < m.next_load ==> asked.prompts_loaded(id, load, Some(prompts)) == asked
            &&& asked.prompts_loaded(id, m.next_load, Some(prompts)).servers[id@].prompts
                == prompts_by_name(id, prompts)
        }),
{
}

/// An answer counts once: given again, it changes nothing.
pub proof fn answer_counts_once(
    m: RegistryModel,
    id: ContextServerId,
    load: u64,
    tools: Option<Seq<Tool>>,
    prompts: Option<Seq<Prompt>>,
    again: Option<Seq<Tool>>,
    prompts_again: Option<Seq<Prompt>>,
)
    ensures
        m.tools_loaded(id, load, tools).tools_loaded(id, load, again) == m.tools_loaded(
            id,
            load,
            tools,
        ),
        m.prompts_loaded(id, load, prompts).prompts_loaded(id, load, prompts_again)
            == m.prompts_loaded(id, load, prompts),
{
}

/// What happens to one server leaves all other servers as they were.
pub proof fn other_servers_are_left_alone(
    m: RegistryModel,
    id: ContextServerId,
    other: Seq<char>,
    status: ContextServerStatus,
    client: Option<ServerClient>,
    load: u64,
    tools: Option<Seq<Tool>>,
    prompts: Option<Seq<Prompt>>,
)
    requires
        other != id@,
    ensures
        forall|after: RegistryModel|
            (after == m.status_changed(id@, status, client) || after == m.reloading_tools(
                id@,
                client,
            ) || after == m.reloading_prompts(id@, client) || after == m.tools_loaded(
                id,
                load,
                tools,
            ) || after == m.prompts_loaded(id, load, prompts)) ==> (
            #[trigger] after.servers.contains_key(other)) == m.servers.contains_key(other)
                && after.servers[other] == m.servers[other],
{
}

/// A server that stopped, or that waits for somebody to sign in, is forgotten
/// with all that it offered, and the other servers are not.
pub proof fn stopped_server_is_forgotten(
    m: RegistryModel,
    id: Seq<char>,
    status: ContextServerStatus,
    client: Option<ServerClient>,
)
    requires
        status is Stopped || status is AuthRequired || status is ClientSecretRequired,
    ensures
        m.status_changed(id, status, client).servers == m.servers.remove(id),
{
}

/// The instructions of the servers are rendered in one way only: the registry
/// alone decides what the text is.
pub proof fn instructions_are_rendered_in_one_way(
    m: RegistryModel,
    a: Seq<Section>,
    b: Seq<Section>,
)
    requires
        is_instruction_order(a, m),
        is_instruction_order(b, m),
    ensures
        a == b,
        rendered(a) == rendered(b),
{
    assert(a.no_duplicates());
    assert(b.no_duplicates());
    a.lemma_multiset_has_no_duplicates();
    b.lemma_multiset_has_no_duplicates();
    assert forall|section: Section| a.to_multiset().count(section) == b.to_multiset().count(
        section,
    ) by {
        to_multiset_contains(a, section);
        to_multiset_contains(b, section);
        assert(a.contains(section) == b.contains(section));
    }
    assert(a.to_multiset() =~= b.to_multiset());
    rendering_ignores_the_order_of_servers(a, b, a, b);
}

/// A failed load leaves the server without the tools or prompts that it had
/// asked for.
pub proof fn failed_load_leaves_nothing(m: RegistryModel, id: ContextServerId, load: u64)
    ensures
        m.awaits_tools(id@, load) ==> m.tools_loaded(id, load, None).servers[id@].tools
            == Map::<Seq<char>, ContextServerTool>::empty(),
        m.awaits_prompts(id@, load) ==> m.prompts_loaded(id, load, None).servers[id@].prompts
            == Map::<Seq<char>, ContextServerPrompt>::empty(),
{
}

/// A server that is starting, or that somebody is signing in to, keeps all that
/// is known of it, and so do all others: nothing in the registry changes.
pub proof fn starting_server_changes_nothing(
    m: RegistryModel,
    id: Seq<char>,
    status: ContextServerStatus,
    client: Option<ServerClient>,
)
    requires
        status is Starting || status is Authenticating,
    ensures
        m.status_changed(id, status, client) == m,
        m.status_changed(id, status, client).servers == m.servers,
        m.status_changed(id, status, client).next_load == m.next_load,
{
}

/// A server that failed is not listened to any more, and nothing is awaited
/// from it; a server that is not known does not become known by failing.
pub proof fn failed_server_is_not_listened_to(
    m: RegistryModel,
    id: Seq<char>,
    message: String,
    client: Option<ServerClient>,
)
    ensures
        ({
            let after = m.status_changed(id, ContextServerStatus::Error(message), client);
            &&& after.next_load == m.next_load
            &&& after.server_store == m.server_store
            &&& after.servers.dom() == m.servers.dom()
            &&& m.servers.contains_key(id) ==> {
                &&& !after.servers[id].subscribed
                &&& after.servers[id].load_tools is None
                &&& after.servers[id].load_prompts is None
            }
            &&& !m.servers.contains_key(id) ==> after == m
        }),
{
    let after = m.status_changed(id, ContextServerStatus::Error(message), client);
    assert(after.servers.dom() =~= m.servers.dom());
}

/// A server that begins to run is known from then on: with the instructions
/// that it gives now, listened to where it offers tools, and asked for its
/// tools and its prompts, each where it offers them, under numbers of their
/// own.
pub proof fn running_server_is_asked_for_what_it_offers(
    m: RegistryModel,
    id: ContextServerId,
    client: Option<ServerClient>,
)
    requires
        m.next_load < u64::MAX - 1,
    ensures
        ({
            let after = m.status_changed(id@, ContextServerStatus::Running, client);
            let server = after.servers[id@];
            let tools = client is Some && client->0.tools;
            let prompts = client is Some && client->0.prompts;
            &&& after.servers.dom() == m.servers.dom().insert(id@)
            &&& after.server_store == m.server_store
            &&& server.subscribed == tools
            &&& server.load_tools == if tools {
                Some(m.next_load)
            } else {
                None
            }
            &&& server.load_prompts == if !prompts {
                None
            } else if tools {
                Some((m.next_load + 1) as u64)
            } else {
                Some(m.next_load)
            }
            &&& after.next_load == m.next_load + (if tools {
                1int
            } else {
                0
            }) + (if prompts {
                1int
            } else {
                0
            })
            &&& server.instructions == match client {
                Some(said) => match said.instructions {
                    Some(text) => normalized(text@),
                    None => None,
                },
                None => None,
            }
            &&& !m.servers.contains_key(id@) ==> server.tools == Map::<
                Seq<char>,
                ContextServerTool,
            >::empty() && server.prompts == Map::<Seq<char>, ContextServerPrompt>::empty()
        }),
        ({
            let requests = load_requests(id, client, m.next_load);
            let tools = client is Some && client->0.tools;
            let prompts = client is Some && client->0.prompts;
            &&& requests.len() == (if tools {
                1int
            } else {
                0
            }) + (if prompts {
                1int
            } else {
                0
            })
            &&& tools ==> requests[0] == (LoadRequest::Tools { server_id: id, load: m.next_load })
            &&& prompts && tools ==> requests[1] == (LoadRequest::Prompts {
                server_id: id,
                load: (m.next_load + 1) as u64,
            })
            &&& prompts && !tools ==> requests[0] == (LoadRequest::Prompts {
                server_id: id,
                load: m.next_load,
            })
        }),
{
    let after = m.status_changed(id@, ContextServerStatus::Running, client);
    assert(after.servers.dom() =~= m.servers.dom().insert(id@));
}

/// Asking a server for its list again changes nothing but what is awaited from
/// it; a server that offers none is not asked.
pub proof fn asking_again_keeps_what_is_known(
    m: RegistryModel,
    id: Seq<char>,
    client: Option<ServerClient>,
)
    requires
        m.servers.contains_key(id),
        m.next_load < u64::MAX,
    ensures
        ({
            let asked = m.reloading_tools(id, client);
            if client is Some && client->0.tools {
                &&& asked.servers == m.servers.insert(
                    id,
                    ServerModel { load_tools: Some(m.next_load), ..m.servers[id] },
                )
                &&& asked.next_load == m.next_load + 1
            } else {
                asked == m
            }
        }),
        ({
            let asked = m.reloading_prompts(id, client);
            if client is Some && client->0.prompts {
                &&& asked.servers == m.servers.insert(
                    id,
                    ServerModel { load_prompts: Some(m.next_load), ..m.servers[id] },
                )
                &&& asked.next_load == m.next_load + 1
            } else {
                asked == m
            }
        }),
{
}

/// The answer that is awaited replaces what the server offered, and nothing
/// else of it; any other answer changes nothing.
pub proof fn awaited_answer_replaces_the_list(
    m: RegistryModel,
    id: ContextServerId,
    load: u64,
    tools: Seq<Tool>,
    prompts: Seq<Prompt>,
)
    ensures
        m.servers.contains_key(id@) && m.servers[id@].load_tools == Some(load) ==> m.tools_loaded(
            id,
            load,
            Some(tools),
        ) == (RegistryModel {
            servers: m.servers.insert(
                id@,
                ServerModel {
                    tools: tools_by_name(id, tools),
                    load_tools: None,
                    ..m.servers[id@]
                },
            ),
            ..m
        }),
        !(m.servers.contains_key(id@) && m.servers[id@].load_tools == Some(load))
            ==> m.tools_loaded(id, load, Some(tools)) == m && m.tools_loaded(id, load, None) == m,
        m.servers.contains_key(id@) && m.servers[id@].load_prompts == Some(load)
            ==> m.prompts_loaded(id, load, Some(prompts)) == (RegistryModel {
            servers: m.servers.insert(
                id@,
                ServerModel {
                    prompts: prompts_by_name(id, prompts),
                    load_prompts: None,
                    ..m.servers[id@]
                },
            ),
            ..m
        }),
        !(m.servers.contains_key(id@) && m.servers[id@].load_prompts == Some(load))
            ==> m.prompts_loaded(id, load, Some(prompts)) == m && m.prompts_loaded(id, load, None)
            == m,
{
}

/// A failed load takes away what was asked for, and keeps the rest of what is
/// known of the server.
pub proof fn failed_load_keeps_the_rest(m: RegistryModel, id: ContextServerId, load: u64)
    ensures
        m.servers.contains_key(id@) && m.servers[id@].load_tools == Some(load) ==> m.tools_loaded(
            id,
            load,
            None,
        ).servers == m.servers.insert(
            id@,
            ServerModel { tools: Map::empty(), load_tools: None, ..m.servers[id@] },
        ),
        m.servers.contains_key(id@) && m.servers[id@].load_prompts == Some(load)
            ==> m.prompts_loaded(id, load, None).servers == m.servers.insert(
            id@,
            ServerModel { prompts: Map::empty(), load_prompts: None, ..m.servers[id@] },
        ),
{
}

/// Every tool that a server listed can be found under its name, as a tool of
/// that server; of several with one name it is the last. No other name is
/// there.
pub proof fn listed_tools_stand_under_their_names(id: ContextServerId, tools: Seq<Tool>, i: int)
    requires
        0 <= i < tools.len(),
        forall|j: int| i < j < tools.len() ==> (#[trigger] tools[j]).name@ != tools[i].name@,
    ensures
        tools_by_name(id, tools).contains_key(tools[i].name@),
        tools_by_name(id, tools)[tools[i].name@] == (ContextServerTool {
            server_id: id.0,
            tool: tools[i],
        }),
    decreases tools.len(),
{
    if i < tools.len() - 1 {
        let front = tools.drop_last();
        assert forall|j: int| i < j < front.len() implies (#[trigger] front[j]).name@
            != front[i].name@ by {
            assert(front[j] == tools[j]);
        }
        listed_tools_stand_under_their_names(id, front, i);
        assert(front[i] == tools[i]);
        assert(tools[tools.len() - 1].name@ != tools[i].name@);
    }
}

/// A name that no tool of a list has is not there.
pub proof fn only_listed_tools_are_there(id: ContextServerId, tools: Seq<Tool>, name: Seq<char>)
    ensures
        tools_by_name(id, tools).contains_key(name) ==> exists|i: int|
            0 <= i < tools.len() && (#[trigger] tools[i]).name@ == name,
    decreases tools.len(),
{
    if tools.len() > 0 && tools_by_name(id, tools).contains_key(name) {
        let front = tools.drop_last();
        if tools.last().name@ == name {
            assert(tools[tools.len() - 1].name@ == name);
        } else {
            only_listed_tools_are_there(id, front, name);
            let i = choose|i: int| 0 <= i < front.len() && (#[trigger] front[i]).name@ == name;
            assert(tools[i] == front[i]);
        }
    }
}

/// The same of prompts: each stands under its name, whole, and says of which
/// server it is.
pub proof fn listed_prompts_stand_under_their_names(
    id: ContextServerId,
    prompts: Seq<Prompt>,
    i: int,
)
    requires
        0 <= i < prompts.len(),
        forall|j: int| i < j < prompts.len() ==> (#[trigger] prompts[j]).name@ != prompts[i].name@,
    ensures
        prompts_by_name(id, prompts).contains_key(prompts[i].name@),
        prompts_by_name(id, prompts)[prompts[i].name@] == (ContextServerPrompt {
            server_id: id,
            prompt: prompts[i],
        }),
    decreases prompts.len(),
{
    if i < prompts.len() - 1 {
        let front = prompts.drop_last();
        assert forall|j: int| i < j < front.len() implies (#[trigger] front[j]).name@
            != front[i].name@ by {
            assert(front[j] == prompts[j]);
        }
        listed_prompts_stand_under_their_names(id, front, i);
        assert(front[i] == prompts[i]);
        assert(prompts[prompts.len() - 1].name@ != prompts[i].name@);
    }
}

/// A name that no prompt of a list has is not there.
pub proof fn only_listed_prompts_are_there(
    id: ContextServerId,
    prompts: Seq<Prompt>,
    name: Seq<char>,
)
    ensures
        prompts_by_name(id, prompts).contains_key(name) ==> exists|i: int|
            0 <= i < prompts.len() && (#[trigger] prompts[i]).name@ == name,
    decreases prompts.len(),
{
    if prompts.len() > 0 && prompts_by_name(id, prompts).contains_key(name) {
        let front = prompts.drop_last();
        if prompts.last().name@ == name {
            assert(prompts[prompts.len() - 1].name@ == name);
        } else {
            only_listed_prompts_are_there(id, front, name);
            let i = choose|i: int| 0 <= i < front.len() && (#[trigger] front[i]).name@ == name;
            assert(prompts[i] == front[i]);
        }
    }
}

/// Those who listen are told that tools changed where the server that goes away
/// had any, and that prompts changed where it had any, and nothing else.
pub proof fn departure_is_told_where_something_is_lost(m: RegistryModel, id: Seq<char>)
    ensures
        ({
            let events = departure_events(m, id);
            let tools = m.servers.contains_key(id) && exists|name: Seq<char>| #[trigger]
                m.servers[id].tools.contains_key(name);
            let prompts = m.servers.contains_key(id) && exists|name: Seq<char>| #[trigger]
                m.servers[id].prompts.contains_key(name);
            &&& tools && prompts ==> events == seq![
                ContextServerRegistryEvent::ToolsChanged,
                ContextServerRegistryEvent::PromptsChanged,
            ]
            &&& tools && !prompts ==> events == seq![ContextServerRegistryEvent::ToolsChanged]
            &&& !tools && prompts ==> events == seq![ContextServerRegistryEvent::PromptsChanged]
            &&& !tools && !prompts ==> events == Seq::<ContextServerRegistryEvent>::empty()
        }),
{
    if m.servers.contains_key(id) {
        let server = m.servers[id];
        if forall|name: Seq<char>| !#[trigger] server.tools.contains_key(name) {
            assert(server.tools =~= Map::<Seq<char>, ContextServerTool>::empty());
        }
        if forall|name: Seq<char>| !#[trigger] server.prompts.contains_key(name) {
            assert(server.prompts =~= Map::<Seq<char>, ContextServerPrompt>::empty());
        }
    }
}

/// The registry finds every running server, in turn: one that is found after
/// others, and that is none of them, becomes known as it said of itself, and is
/// asked for what it offers, while all that was found before stays.
pub proof fn each_running_server_is_found(
    m: RegistryModel,
    servers: Seq<RunningServer>,
    next: RunningServer,
)
    requires
        !m.found(servers).servers.contains_key(next.id@),
        m.found(servers).next_load < u64::MAX - 1,
    ensures
        m.found(Seq::<RunningServer>::empty()) == m,
        ({
            let before = m.found(servers);
            let after = m.found(servers.push(next));
            &&& after == before.status_changed(next.id@, ContextServerStatus::Running, next.client)
            &&& after.servers.contains_key(next.id@)
            &&& after.servers.remove(next.id@) == before.servers
            &&& found_requests(m, servers.push(next)) == found_requests(m, servers)
                + load_requests(next.id, next.client, before.next_load)
        }),
        found_requests(m, Seq::<RunningServer>::empty()) == Seq::<LoadRequest>::empty(),
{
    assert(servers.push(next).drop_last() =~= servers);
    let before = m.found(servers);
    let after = m.found(servers.push(next));
    assert(after.servers.remove(next.id@) =~= before.servers);
    assert(after =~= before.status_changed(
        next.id@,
        ContextServerStatus::Running,
        next.client,
    ));
}

/// The tools of a server are listed in the order of their names, each of them
/// once, and none is missing.
pub proof fn listed_tools_are_complete(
    m: RegistryModel,
    id: Seq<char>,
    values: Seq<ContextServerTool>,
    name: Seq<char>,
)
    requires
        m.wf(),
        m.servers.contains_key(id),
        are_values_of(values, m.servers[id].tools),
    ensures
        forall|i: int, j: int|
            #![trigger values[i], values[j]]
            0 <= i < j < values.len() ==> crate::order::precedes(
                values[i].tool.name@,
                values[j].tool.name@,
            ),
        m.servers[id].tools.contains_key(name) <==> exists|i: int|
            0 <= i < values.len() && (#[trigger] values[i]).tool.name@ == name,
        m.servers[id].tools.contains_key(name) ==> values.contains(m.servers[id].tools[name]),
{
    let tools = m.servers[id].tools;
    let keys = choose|keys: Seq<Seq<char>>| #[trigger]
        crate::ordered_map::is_walk(keys, tools) && values.len() == keys.len() && forall|i: int|
            0 <= i < keys.len() ==> #[trigger] values[i] == tools[keys[i]];
    assert forall|i: int| 0 <= i < keys.len() implies (#[trigger] values[i]).tool.name@ == keys[i]
        && tools.contains_key(keys[i]) by {
        assert(keys.to_set().contains(keys[i]));
        assert(tools.dom().contains(keys[i]));
    }
    assert forall|i: int, j: int|
        #![trigger values[i], values[j]]
        0 <= i < j < values.len() implies crate::order::precedes(
        values[i].tool.name@,
        values[j].tool.name@,
    ) by {
        assert(crate::order::precedes(keys[i], keys[j]));
    }
    if tools.contains_key(name) {
        assert(keys.to_set().contains(name));
        let i = choose|i: int| 0 <= i < keys.len() && keys[i] == name;
        assert(values[i].tool.name@ == name);
        assert(values[i] == tools[name]);
    }
}

/// The prompts of all servers are all there: a prompt is listed exactly where
/// one of the servers offers it.
pub proof fn listed_prompts_are_complete(
    m: RegistryModel,
    ids: Seq<Seq<char>>,
    listed: Seq<ContextServerPrompt>,
    prompt: ContextServerPrompt,
)
    requires
        are_prompts_of(listed, m, ids),
    ensures
        listed.contains(prompt) <==> exists|k: int, name: Seq<char>|
            0 <= k < ids.len() && #[trigger] m.servers[ids[k]].prompts.contains_key(name)
                && m.servers[ids[k]].prompts[name] == prompt,
    decreases ids.len(),
{
    if ids.len() > 0 {
        let k = choose|k: int|
            0 <= k <= listed.len() && are_prompts_of(listed.take(k), m, ids.drop_last())
                && are_values_of(#[trigger] listed.skip(k), m.servers[ids.last()].prompts);
        let front = ids.drop_last();
        listed_prompts_are_complete(m, front, listed.take(k), prompt);
        values_are_the_values(listed.skip(k), m.servers[ids.last()].prompts, prompt);
        if listed.contains(prompt) {
            let i = choose|i: int| 0 <= i < listed.len() && listed[i] == prompt;
            if i < k {
                assert(listed.take(k)[i] == prompt);
                let (j, name) = choose|j: int, name: Seq<char>|
                    0 <= j < front.len() && #[trigger] m.servers[front[j]].prompts.contains_key(
                        name,
                    ) && m.servers[front[j]].prompts[name] == prompt;
                assert(ids[j] == front[j]);
                assert(m.servers[ids[j]].prompts.contains_key(name));
            } else {
                assert(listed.skip(k)[i - k] == prompt);
                let name = choose|name: Seq<char>| #[trigger]
                    m.servers[ids.last()].prompts.contains_key(name)
                        && m.servers[ids.last()].prompts[name] == prompt;
                assert(m.servers[ids[ids.len() - 1]].prompts.contains_key(name));
            }
        }
        if exists|j: int, name: Seq<char>|
            0 <= j < ids.len() && #[trigger] m.servers[ids[j]].prompts.contains_key(name)
                && m.servers[ids[j]].prompts[name] == prompt {
            let (j, name) = choose|j: int, name: Seq<char>|
                0 <= j < ids.len() && #[trigger] m.servers[ids[j]].prompts.contains_key(name)
                    && m.servers[ids[j]].prompts[name] == prompt;
            if j < front.len() {
                assert(front[j] == ids[j]);
                assert(m.servers[front[j]].prompts.contains_key(name));
                let i = choose|i: int|
                    0 <= i < listed.take(k).len() && listed.take(k)[i] == prompt;
                assert(listed[i] == prompt);
            } else {
                let i = choose|i: int|
                    0 <= i < listed.skip(k).len() && listed.skip(k)[i] == prompt;
                assert(listed[i + k] == prompt);
            }
        }
    }
}

proof fn values_are_the_values(
    values: Seq<ContextServerPrompt>,
    map: Map<Seq<char>, ContextServerPrompt>,
    value: ContextServerPrompt,
)
    requires
        are_values_of(values, map),
    ensures
        values.contains(value) <==> exists|name: Seq<char>| #[trigger]
            map.contains_key(name) && map[name] == value,
{
    let keys = choose|keys: Seq<Seq<char>>| #[trigger]
        crate::ordered_map::is_walk(keys, map) && values.len() == keys.len() && forall|i: int|
            0 <= i < keys.len() ==> #[trigger] values[i] == map[keys[i]];
    if values.contains(value) {
        let i = choose|i: int| 0 <= i < values.len() && values[i] == value;
        assert(keys.to_set().contains(keys[i]));
        assert(map.contains_key(keys[i]));
    }
    if exists|name: Seq<char>| #[trigger] map.contains_key(name) && map[name] == value {
        let name = choose|name: Seq<char>| #[trigger] map.contains_key(name) && map[name] == value;
        assert(keys.to_set().contains(name));
        let i = choose|i: int| 0 <= i < keys.len() && keys[i] == name;
        assert(values[i] == value);
    }
}

/// A prompt can be found by its name exactly where the server is known and
/// offers it.
pub proof fn offered_prompt_is_there(m: RegistryModel, id: Seq<char>, name: Seq<char>)
    ensures
        m.has_prompt(id, name) == (m.servers.dom().contains(id)
            && m.servers[id].prompts.dom().contains(name)),
{
}

/// Servers are told apart by their identifiers.
pub proof fn servers_are_told_apart_by_identifier(id: ContextServerId)
    ensures
        id@ == id.0@,
{
}

/// What a server said of itself is what it said when it was initialized, and
/// nothing where it is not running.
pub proof fn running_server_speaks_for_itself(server: RunningServer)
    ensures
        client_said(Some(&server)) == server.client,
        client_said(None) is None,
{
}

/// A server that offers what it is asked for becomes known by being asked, as
/// far as it said of itself.
pub proof fn asked_server_becomes_known(m: RegistryModel, id: Seq<char>, client: ServerClient)
    requires
        !m.servers.contains_key(id),
        m.next_load < u64::MAX,
    ensures
        client.tools ==> {
            let asked = m.reloading_tools(id, Some(client));
            &&& asked.servers.remove(id) == m.servers
            &&& asked.servers.contains_key(id)
            &&& asked.servers[id].subscribed
            &&& asked.servers[id].load_tools == Some(m.next_load)
            &&& asked.servers[id].load_prompts is None
            &&& asked.next_load == m.next_load + 1
        },
        !client.tools ==> m.reloading_tools(id, Some(client)) == m,
        client.prompts ==> {
            let asked = m.reloading_prompts(id, Some(client));
            &&& asked.servers.remove(id) == m.servers
            &&& asked.servers.contains_key(id)
            &&& asked.servers[id].subscribed == client.tools
            &&& asked.servers[id].load_prompts == Some(m.next_load)
            &&& asked.servers[id].load_tools is None
            &&& asked.next_load == m.next_load + 1
        },
        !client.prompts ==> m.reloading_prompts(id, Some(client)) == m,
        m.reloading_tools(id, None) == m,
        m.reloading_prompts(id, None) == m,
{
    assert(m.reloading_tools(id, Some(client)).servers.remove(id) =~= m.servers);
    assert(m.reloading_prompts(id, Some(client)).servers.remove(id) =~= m.servers);
}

/// A roster names every server that is known, and each of them once.
pub proof fn roster_names_every_server_once(
    m: RegistryModel,
    ids: Seq<Seq<char>>,
    id: Seq<char>,
    i: int,
    j: int,
)
    requires
        is_roster(ids, m),
    ensures
        ids.contains(id) == m.servers.contains_key(id),
        0 <= i < j < ids.len() ==> ids[i] != ids[j],
{
    assert(ids.to_set().contains(id) == m.servers.dom().contains(id));
}

/// The instructions that are rendered are those of every server that gave any,
/// and no others, in the order of the servers' identifiers.
pub proof fn instructions_of_every_server_are_rendered(
    m: RegistryModel,
    order: Seq<Section>,
    id: Seq<char>,
    text: Seq<char>,
    i: int,
    j: int,
)
    requires
        is_instruction_order(order, m),
    ensures
        m.servers.contains_key(id) && m.servers[id].instructions == Some(text) ==> order.contains(
            (id, text),
        ),
        order.contains((id, text)) ==> m.servers.contains_key(id) && m.servers[id].instructions
            == Some(text),
        0 <= i < j < order.len() ==> crate::order::precedes(order[i].0, order[j].0),
{
    if 0 <= i < j < order.len() {
        assert(order[i].0 != order[j].0);
        crate::order::precedes_total(order[i].0, order[j].0);
    }
}

} // verus!
