//! The gateway's state: the configuration and the proxies that are live.
//!
//! `P` is a handle on a proxy. Files are read and written by the caller.

use vstd::prelude::*;

use crate::config::{same_entry, Config, ConfigV, McpEntry, McpEntryV};
use crate::error::{ProxyError, Result};
use crate::order::{in_order, lemma_same_names, sort_names, texts};
use crate::table::Table;

verus! {

/// A path in the file system. It is only carried along.
#[verifier::external_type_specification]
#[verifier::external_body]
pub struct ExPathBuf(std::path::PathBuf);

/// The configuration, the live proxies by server id, and the file that the configuration is
/// kept in.
pub struct AppState<P> {
    pub config: Config,
    proxies: Table<P>,
    pub config_path: Option<std::path::PathBuf>,
}

/// What an `AppState` is.
#[verifier::ext_equal]
pub struct StateV<P> {
    pub config: ConfigV,
    pub proxies: Map<Seq<char>, P>,
    pub config_path: Option<std::path::PathBuf>,
}

impl<P> View for AppState<P> {
    type V = StateV<P>;

    closed spec fn view(&self) -> StateV<P> {
        StateV { config: self.config@, proxies: self.proxies@, config_path: self.config_path }
    }
}

/// Where a server's proxy comes from.
#[derive(Debug)]
pub enum Lookup<'a, P> {
    /// It is live.
    Live(&'a P),
    /// It is to be made from this entry.
    Spawn(&'a McpEntry),
}

/// What disabling a server did.
#[derive(Debug)]
pub struct Disabled<P> {
    /// The server was configured or live.
    pub found: bool,
    /// The configuration changed, so it is to be saved.
    pub save: bool,
    /// The proxy that was live. What stands behind it is to be stopped.
    pub proxy: Option<P>,
}

/// A live proxy outlasts a reload if its server is still configured, with the settings that it
/// had before, as far as it had any.
pub open spec fn outlasts(
    current: Map<Seq<char>, McpEntryV>,
    next: Map<Seq<char>, McpEntryV>,
    id: Seq<char>,
) -> bool {
    next.contains_key(id) && (current.contains_key(id) ==> current[id] == next[id])
}

/// The state after the configuration has become `next`.
pub open spec fn reloaded<P>(state: StateV<P>, next: ConfigV) -> StateV<P> {
    StateV {
        config: next,
        proxies: state.proxies.restrict(
            Set::new(|id: Seq<char>| outlasts(state.config.mcp, next.mcp, id)),
        ),
        config_path: state.config_path,
    }
}

/// The proxies that a reload lets go.
pub open spec fn recycled<P>(state: StateV<P>, next: ConfigV) -> Map<Seq<char>, P> {
    state.proxies.restrict(
        Set::new(|id: Seq<char>| !outlasts(state.config.mcp, next.mcp, id)),
    )
}

/// The proxy of server `id`, where it is live.
pub open spec fn live_proxy<P>(state: StateV<P>, id: Seq<char>) -> Option<P> {
    if state.proxies.contains_key(id) {
        Some(state.proxies[id])
    } else {
        None
    }
}

/// The state after the proxy of server `id` was let go.
pub open spec fn without_proxy<P>(state: StateV<P>, id: Seq<char>) -> StateV<P> {
    StateV { proxies: state.proxies.remove(id), ..state }
}

/// The state after server `id` got the settings `entry`.
pub open spec fn added<P>(state: StateV<P>, id: Seq<char>, entry: McpEntryV) -> StateV<P> {
    StateV {
        config: ConfigV { mcp: state.config.mcp.insert(id, entry), ..state.config },
        ..state
    }
}

/// The state after server `id` was disabled.
pub open spec fn disabled<P>(state: StateV<P>, id: Seq<char>) -> StateV<P> {
    StateV {
        config: ConfigV { mcp: state.config.mcp.remove(id), ..state.config },
        proxies: state.proxies.remove(id),
        ..state
    }
}

/// The state after a proxy of server `id` became live.
pub open spec fn with_proxy<P>(state: StateV<P>, id: Seq<char>, proxy: P) -> StateV<P> {
    StateV { proxies: state.proxies.insert(id, proxy), ..state }
}

/// The state after a proxy of server `id` was made live, unless one was.
pub open spec fn settled<P>(state: StateV<P>, id: Seq<char>, proxy: P) -> StateV<P> {
    if state.proxies.contains_key(id) {
        state
    } else {
        with_proxy(state, id, proxy)
    }
}

impl<P> AppState<P> {
    /// The state in which no proxy is live.
    pub fn new(config: Config) -> (state: Self)
        ensures
            state@ == (StateV {
                config: config@,
                proxies: Map::<Seq<char>, P>::empty(),
                config_path: None,
            }),
    {
        AppState { config, proxies: Table::new(), config_path: None }
    }

    /// The same state with its configuration kept in `path`.
    pub fn with_path(self, path: std::path::PathBuf) -> (state: Self)
        ensures
            state@ == (StateV { config_path: Some(path), ..self@ }),
    {
        AppState { config: self.config, proxies: self.proxies, config_path: Some(path) }
    }

    /// The configuration.
    pub fn settings(&self) -> (config: &Config)
        ensures
            config@ == self@.config,
    {
        &self.config
    }

    /// The configured server ids in alphabetical order.
    pub fn ids(&self) -> (ids: Vec<String>)
        ensures
            in_order(texts(ids@)),
            texts(ids@).no_duplicates(),
            texts(ids@).to_set() == self@.config.mcp.dom(),
    {
        let keys: Vec<String> = self.config.mcp.keys();
        let ids: Vec<String> = sort_names(keys);
        proof {
            assert(texts(keys@) =~= self.config.mcp.names());
            lemma_same_names(texts(ids@), texts(keys@));
            assert(self@.config.mcp.dom() =~= self.config.mcp@.dom());
        }
        ids
    }

    /// The proxy of server `id` where it is live, and otherwise the entry to make it from.
    pub fn get_or_spawn(&self, id: &str) -> (r: Result<Lookup<'_, P>>)
        ensures
            (match r {
                Ok(Lookup::Live(proxy)) => self@.proxies.contains_key(id@) && *proxy
                    == self@.proxies[id@],
                Ok(Lookup::Spawn(entry)) => !self@.proxies.contains_key(id@)
                    && self@.config.mcp.contains_key(id@) && entry@ == self@.config.mcp[id@],
                Err(e) => !self@.proxies.contains_key(id@) && !self@.config.mcp.contains_key(id@)
                    && (e matches ProxyError::UnknownServer(name) && name@ == id@),
            }),
    {
        match self.proxies.get(id) {
            Some(proxy) => Ok(Lookup::Live(proxy)),
            None => match self.config.mcp.get(id) {
                Some(entry) => Ok(Lookup::Spawn(entry)),
                None => Err(ProxyError::UnknownServer(id.to_owned())),
            },
        }
    }

    /// Makes a proxy of server `id` live, unless one is: there is one for all sessions. The one
    /// that is not needed is handed back, and what stands behind it is to be stopped.
    pub fn settle(&mut self, id: &str, proxy: P) -> (surplus: Option<P>)
        ensures
            final(self)@ == settled(old(self)@, id@, proxy),
            surplus == (if old(self)@.proxies.contains_key(id@) {
                Some(proxy)
            } else {
                None
            }),
    {
        if self.proxies.contains_key(id) {
            return Some(proxy);
        }
        let _ = self.proxies.insert(id.to_owned(), proxy);
        None
    }

    /// The ids of the live proxies.
    pub fn live_ids(&self) -> (ids: Vec<String>)
        ensures
            texts(ids@).no_duplicates(),
            texts(ids@).to_set() == self@.proxies.dom(),
    {
        let ids: Vec<String> = self.proxies.keys();
        assert(texts(ids@) =~= self.proxies.names());
        ids
    }

    /// Whether the proxy of server `id` is live.
    pub fn is_live(&self, id: &str) -> (r: bool)
        ensures
            r == self@.proxies.contains_key(id@),
    {
        self.proxies.contains_key(id)
    }

    /// Adds a server, or gives it other settings. The configuration is to be saved.
    pub fn add_server(&mut self, id: String, entry: McpEntry)
        ensures
            final(self)@ == added(old(self)@, id@, entry@),
    {
        let _ = self.config.mcp.insert(id, entry);
        assert(self@.config.mcp =~= old(self)@.config.mcp.insert(id@, entry@));
    }

    /// Takes a server out of the configuration and lets its proxy go.
    pub fn disable_server(&mut self, id: &str) -> (r: Disabled<P>)
        ensures
            r.found == (old(self)@.config.mcp.contains_key(id@)
                || old(self)@.proxies.contains_key(id@)),
            r.save == old(self)@.config.mcp.contains_key(id@),
            r.proxy == live_proxy(old(self)@, id@),
            final(self)@ == disabled(old(self)@, id@),
    {
        let removed_config: bool = self.config.mcp.remove(id).is_some();
        let proxy: Option<P> = self.proxies.remove(id);
        assert(self@.config.mcp =~= old(self)@.config.mcp.remove(id@));
        Disabled { found: removed_config || proxy.is_some(), save: removed_config, proxy }
    }

    /// The child behind the proxy of server `id` has exited, so the proxy is no longer live, and
    /// whoever asks for the server next has it started again.
    pub fn child_exited(&mut self, id: &str)
        ensures
            final(self)@ == without_proxy(old(self)@, id@),
    {
        let _ = self.proxies.remove(id);
    }

    /// The child behind a proxy of server `id` has exited. Where that proxy is still the live one
    /// it is let go, and where sessions are attached to it as well the child is to be started
    /// again, from the entry that is returned.
    pub fn restart(&mut self, id: &str, still_live: bool, attached: bool) -> (r: Option<&McpEntry>)
        ensures
            final(self)@ == (if still_live {
                without_proxy(old(self)@, id@)
            } else {
                old(self)@
            }),
            r is Some <==> still_live && attached && old(self)@.config.mcp.contains_key(id@),
            r matches Some(entry) ==> entry@ == old(self)@.config.mcp[id@],
    {
        if !still_live {
            return None;
        }
        self.child_exited(id);
        if attached {
            self.config.mcp.get(id)
        } else {
            None
        }
    }

    /// What is to be written where when the configuration is saved. Without a file nothing is.
    pub fn save_to_disk(&self) -> (r: Option<(&std::path::PathBuf, &Config)>)
        ensures
            (match r {
                Some((path, config)) => self@.config_path == Some(*path) && config@
                    == self@.config,
                None => self@.config_path is None,
            }),
    {
        match &self.config_path {
            Some(path) => Some((path, &self.config)),
            None => None,
        }
    }

    /// The file that a reload reads.
    pub fn reload_source(&self) -> (r: Result<&std::path::PathBuf>)
        ensures
            (match r {
                Ok(path) => self@.config_path == Some(*path),
                Err(e) => self@.config_path is None && (e matches ProxyError::Config(text) && text@
                    == "No configuration path tracking available to reload"@),
            }),
    {
        match &self.config_path {
            Some(path) => Ok(path),
            None => Err(
                ProxyError::Config("No configuration path tracking available to reload".to_owned()),
            ),
        }
    }

    /// Takes over a configuration that was read anew, and lets the proxies go whose servers are
    /// no longer configured or have other settings now. They are returned: what stands behind
    /// them is to be stopped.
    pub fn reload_from_disk(&mut self, next: Config) -> (stopped: Table<P>)
        ensures
            final(self)@ == reloaded(old(self)@, next@),
            stopped@ == recycled(old(self)@, next@),
    {
        let live: Vec<String> = self.proxies.keys();
        let mut stopped: Table<P> = Table::new();
        let ghost names = texts(live@);
        let ghost before = self@;
        let ghost kept = Set::new(
            |id: Seq<char>| outlasts(before.config.mcp, next@.mcp, id),
        );
        let mut i: usize = 0;
        proof {
            assert(names =~= self.proxies.names());
            assert(before.proxies =~= self.proxies@);
        }
        while i < live.len()
            invariant
                i <= live@.len(),
                names == texts(live@),
                names.to_set() == before.proxies.dom(),
                self.config == old(self).config,
                self.config@ == before.config,
                self.config_path == before.config_path,
                kept == Set::new(|id: Seq<char>| outlasts(before.config.mcp, next@.mcp, id)),
                self.proxies@.submap_of(before.proxies),
                stopped@.submap_of(before.proxies),
                forall|id: Seq<char>| #[trigger]
                    before.proxies.contains_key(id) ==> (self.proxies@.contains_key(id)
                        <==> !stopped@.contains_key(id)),
                forall|id: Seq<char>| #[trigger] stopped@.contains_key(id) ==> !kept.contains(id),
                forall|j: int|
                    0 <= j < i && !kept.contains(#[trigger] names[j]) ==> stopped@.contains_key(
                        names[j],
                    ),
            decreases live@.len() - i,
        {
            let id: &str = live[i].as_str();
            let keep: bool = match next.mcp.get(id) {
                Some(next_entry) => match self.config.mcp.get(id) {
                    Some(entry) => same_entry(entry, next_entry),
                    None => true,
                },
                None => false,
            };
            assert(keep == kept.contains(id@));
            assert(names[i as int] == id@);
            assert(names.to_set().contains(id@)) by {
                assert(names.contains(id@));
            }
            assert(before.proxies.contains_key(id@));
            if !keep {
                if let Some(proxy) = self.proxies.remove(id) {
                    let _ = stopped.insert(id.to_owned(), proxy);
                }
            }
            i = i + 1;
        }
        self.config = next;
        proof {
            assert forall|id: Seq<char>| #[trigger]
                before.proxies.contains_key(id) && !kept.contains(
                    id,
                ) implies stopped@.contains_key(id) by {
                assert(names.to_set().contains(id));
                let j = choose|j: int| 0 <= j < names.len() && names[j] == id;
                assert(!kept.contains(names[j]));
            }
            assert(self.proxies@ =~= before.proxies.restrict(kept));
            assert(stopped@ =~= recycled(before, next@));
        }
        stopped
    }
}

/// A server is listed once it was added, and no other is lost or gained.
pub proof fn law_added_server_is_configured<P>(
    state: StateV<P>,
    id: Seq<char>,
    entry: McpEntryV,
    other: Seq<char>,
)
    ensures
        added(state, id, entry).config.mcp.dom() == state.config.mcp.dom().insert(id),
        added(state, id, entry).config.mcp[id] == entry,
        other != id && state.config.mcp.contains_key(other) ==> added(
            state,
            id,
            entry,
        ).config.mcp[other] == state.config.mcp[other],
        added(state, id, entry).proxies == state.proxies,
{
    assert(added(state, id, entry).config.mcp.dom() =~= state.config.mcp.dom().insert(id));
}

/// A disabled server is neither configured nor live, so that asking for it fails; disabling it
/// once more changes nothing.
pub proof fn law_disabled_server_is_gone<P>(state: StateV<P>, id: Seq<char>)
    ensures
        !disabled(state, id).config.mcp.contains_key(id),
        !disabled(state, id).proxies.contains_key(id),
        disabled(disabled(state, id), id) == disabled(state, id),
{
    assert(disabled(disabled(state, id), id) =~= disabled(state, id));
}

/// Disabling a server that was just added leaves the configuration as it was without it.
pub proof fn law_disable_undoes_add<P>(state: StateV<P>, id: Seq<char>, entry: McpEntryV)
    requires
        !state.config.mcp.contains_key(id),
        !state.proxies.contains_key(id),
    ensures
        disabled(added(state, id, entry), id) == state,
{
    assert(disabled(added(state, id, entry), id) =~= state);
}

/// Once a proxy is live it is the one that everybody gets, whatever is added and whoever else
/// made one: there is one child per server, shared by all sessions.
pub proof fn law_live_proxy_is_shared<P>(
    state: StateV<P>,
    id: Seq<char>,
    proxy: P,
    late: P,
    other: Seq<char>,
    entry: McpEntryV,
)
    requires
        !state.proxies.contains_key(id),
    ensures
        live_proxy(settled(state, id, proxy), id) == Some(proxy),
        settled(settled(state, id, proxy), id, late) == settled(state, id, proxy),
        live_proxy(added(settled(state, id, proxy), other, entry), id) == Some(proxy),
{
}

/// A server whose child has exited is configured as before, so that asking for it has it started
/// again, and every other proxy is live as before.
pub proof fn law_exited_child_is_replaced<P>(
    state: StateV<P>,
    id: Seq<char>,
    other: Seq<char>,
    again: P,
)
    ensures
        !without_proxy(state, id).proxies.contains_key(id),
        without_proxy(state, id).config == state.config,
        other != id ==> live_proxy(without_proxy(state, id), other) == live_proxy(state, other),
        live_proxy(with_proxy(without_proxy(state, id), id, again), id) == Some(again),
{
}

/// A proxy that was live before a reload is either live after it or handed out to be stopped.
pub proof fn law_reload_loses_no_proxy<P>(state: StateV<P>, next: ConfigV, id: Seq<char>)
    requires
        state.proxies.contains_key(id),
    ensures
        reloaded(state, next).proxies.contains_key(id) != recycled(state, next).contains_key(id),
        recycled(state, next).contains_key(id) ==> recycled(state, next)[id] == state.proxies[id],
{
}

/// A reload takes over the configuration that was read; a proxy stays live exactly where its
/// server is still configured and its settings do not differ, and none becomes live.
pub proof fn law_reload_recycles_what_changed<P>(state: StateV<P>, next: ConfigV, id: Seq<char>)
    requires
        state.proxies.contains_key(id) ==> state.config.mcp.contains_key(id),
    ensures
        reloaded(state, next).config == next,
        reloaded(state, next).proxies.contains_key(id) <==> {
            &&& state.proxies.contains_key(id)
            &&& next.mcp.contains_key(id)
            &&& state.config.mcp[id] == next.mcp[id]
        },
        reloaded(state, next).proxies.contains_key(id) ==> reloaded(state, next).proxies[id]
            == state.proxies[id],
{
}

/// A reload of what is configured already changes nothing, where only configured servers are
/// live.
pub proof fn law_reload_of_the_same_changes_nothing<P>(state: StateV<P>)
    requires
        state.proxies.dom().subset_of(state.config.mcp.dom()),
    ensures
        reloaded(state, state.config) == state,
{
    assert(reloaded(state, state.config).proxies =~= state.proxies);
}

/// Disabling a server takes out that server and no other: every other one is configured as it was
/// and live as it was, with the same proxy, whether or not the one was live. The listener and the
/// file stay.
pub proof fn law_disabling_leaves_every_other_server<P>(
    state: StateV<P>,
    id: Seq<char>,
    other: Seq<char>,
)
    requires
        other != id,
    ensures
        ({
            let after = disabled(state, id);
            &&& after.proxies.contains_key(other) == state.proxies.contains_key(other)
            &&& state.proxies.contains_key(other) ==> after.proxies[other] == state.proxies[other]
            &&& after.config.mcp.contains_key(other) == state.config.mcp.contains_key(other)
            &&& state.config.mcp.contains_key(other) ==> after.config.mcp[other]
                == state.config.mcp[other]
            &&& !after.proxies.contains_key(id) && !after.config.mcp.contains_key(id)
            &&& after.config.host == state.config.host && after.config.port == state.config.port
            &&& after.config_path == state.config_path
        }),
{
}

/// Adding a server gives it its entry and changes nothing else: not the other servers, not what
/// is live, not the listener and not the file.
pub proof fn law_adding_leaves_every_other_server<P>(
    state: StateV<P>,
    id: Seq<char>,
    entry: McpEntryV,
    other: Seq<char>,
)
    requires
        other != id,
    ensures
        ({
            let after = added(state, id, entry);
            &&& after.config.mcp.contains_key(id) && after.config.mcp[id] == entry
            &&& after.config.mcp.contains_key(other) == state.config.mcp.contains_key(other)
            &&& state.config.mcp.contains_key(other) ==> after.config.mcp[other]
                == state.config.mcp[other]
            &&& after.proxies == state.proxies
            &&& after.config.host == state.config.host && after.config.port == state.config.port
            &&& after.config_path == state.config_path
        }),
{
}

/// Making a proxy live, and letting one go, is a matter of that server alone: every other proxy
/// and the whole configuration stay. A live proxy is never replaced.
pub proof fn law_proxies_come_and_go_one_by_one<P>(
    state: StateV<P>,
    id: Seq<char>,
    proxy: P,
    other: Seq<char>,
)
    requires
        other != id,
    ensures
        ({
            let made = with_proxy(state, id, proxy);
            let kept = settled(state, id, proxy);
            let gone = without_proxy(state, id);
            &&& made.proxies.contains_key(id) && made.proxies[id] == proxy
            &&& kept.proxies.contains_key(id) && kept.proxies[id] == (
            if state.proxies.contains_key(id) {
                state.proxies[id]
            } else {
                proxy
            })
            &&& !gone.proxies.contains_key(id)
            &&& made.proxies.contains_key(other) == state.proxies.contains_key(other)
            &&& kept.proxies.contains_key(other) == state.proxies.contains_key(other)
            &&& gone.proxies.contains_key(other) == state.proxies.contains_key(other)
            &&& state.proxies.contains_key(other) ==> made.proxies[other] == state.proxies[other]
                && kept.proxies[other] == state.proxies[other] && gone.proxies[other]
                == state.proxies[other]
            &&& made.config == state.config && kept.config == state.config && gone.config
                == state.config
            &&& made.config_path == state.config_path && kept.config_path == state.config_path
                && gone.config_path == state.config_path
        }),
{
}

/// The proxy of a server is the one that is held for it, and there is none where none is held.
pub proof fn law_the_live_proxy_is_the_one_held<P>(state: StateV<P>, id: Seq<char>)
    ensures
        state.proxies.contains_key(id) ==> live_proxy(state, id) == Some(state.proxies[id]),
        !state.proxies.contains_key(id) ==> live_proxy(state, id) is None,
{
}

/// After a reload a proxy is live exactly where it was, its server is in the configuration that
/// was read, and the settings that it had, if any, are the same as there. It is the same proxy.
/// What was live and no longer is is handed out, and nothing else is. The file stays.
pub proof fn law_a_reload_keeps_what_did_not_change<P>(
    state: StateV<P>,
    next: ConfigV,
    id: Seq<char>,
)
    ensures
        ({
            let after = reloaded(state, next);
            let out = recycled(state, next);
            let same = next.mcp.contains_key(id) && (!state.config.mcp.contains_key(id)
                || state.config.mcp[id] == next.mcp[id]);
            &&& after.config == next
            &&& after.config_path == state.config_path
            &&& after.proxies.contains_key(id) <==> state.proxies.contains_key(id) && same
            &&& out.contains_key(id) <==> state.proxies.contains_key(id) && !same
            &&& after.proxies.contains_key(id) ==> after.proxies[id] == state.proxies[id]
            &&& out.contains_key(id) ==> out[id] == state.proxies[id]
        }),
{
}

} // verus!
