//! The console: what a command does, and what is shown for it.

use vstd::prelude::*;

use crate::command::{parse_command, parsed, Command, CommandV};
use crate::config::{is_http_url, is_url, Config, McpEntry, McpEntryV, ServerSection};
use crate::error::{ProxyError, Result};
use crate::order::{in_order, law_order_is_unique, texts};
use crate::state::{added, disabled, live_proxy, AppState, StateV};
use crate::table::Table;
use crate::text::{
    begins, chars_of, decimal, decimal_text, law_padded_is_the_text_and_spaces, pad, padded, trim,
    trimmed,
};

verus! {

/// The greeting.
pub open spec fn banner_text() -> Seq<char> {
    "\n========================================================\n"@
        + "       MCP-SERVER INTERACTIVE POWER CONSOLE / TUI       \n"@
        + "========================================================\n"@
        + "Type /help or /mcp help to view all available commands.\n"@
        + "Type /list to show status of configured stdio tools.\n"@
        + "========================================================\n"@
}

/// The greeting.
pub fn banner() -> (text: String)
    ensures
        text@ == banner_text(),
{
    "\n========================================================\n".to_owned().concat(
        "       MCP-SERVER INTERACTIVE POWER CONSOLE / TUI       \n",
    ).concat("========================================================\n").concat(
        "Type /help or /mcp help to view all available commands.\n",
    ).concat("Type /list to show status of configured stdio tools.\n").concat(
        "========================================================\n",
    )
}

/// What stands before the place where a command is typed.
pub fn prompt() -> (text: &'static str)
    ensures
        text@ == "mcp-server> "@,
{
    "mcp-server> "
}

/// What `/help` shows.
pub open spec fn help_text() -> Seq<char> {
    "\n----------------------- AVAILABLE COMMANDS -----------------------\n"@
        + "  /help                          Show this help documentation section\n"@
        + "  /list                          List all configured tools with status\n"@
        + "  /status                        Show active server stats and listener options\n"@
        + "  /mcp add \"slug\" <cmd> <args>   Add / update an MCP tool process config\n"@
        + "  /mcp disable \"slug\"            Stop and disable an active MCP tool\n"@
        + "  /mcp server reload             Reload config file dynamically from disk\n"@
        + "  /exit, /shutdown               Gracefully exit the proxy server\n"@
        + "------------------------------------------------------------------\n"@
}

/// What `/help` shows.
pub fn help() -> (text: String)
    ensures
        text@ == help_text(),
{
    "\n----------------------- AVAILABLE COMMANDS -----------------------\n".to_owned().concat(
        "  /help                          Show this help documentation section\n",
    ).concat("  /list                          List all configured tools with status\n").concat(
        "  /status                        Show active server stats and listener options\n",
    ).concat("  /mcp add \"slug\" <cmd> <args>   Add / update an MCP tool process config\n").concat(
        "  /mcp disable \"slug\"            Stop and disable an active MCP tool\n",
    ).concat("  /mcp server reload             Reload config file dynamically from disk\n").concat(
        "  /exit, /shutdown               Gracefully exit the proxy server\n",
    ).concat("------------------------------------------------------------------\n")
}

/// What `{:?}` shows of a list of strings.
pub uninterp spec fn debug_texts(items: Seq<Seq<char>>) -> Seq<char>;

/// `format!` with `{:?}` on a list of strings: the text is a matter of the strings alone. How it
/// quotes and escapes them is not said.
#[verifier::external_body]
fn show_texts(items: &Vec<String>) -> (text: String)
    ensures
        text@ == debug_texts(items@.map_values(|s: String| s@)),
{
    format!("{:?}", items)
}

/// A row of the list, where `shown_args` is what is shown of the server's arguments.
pub open spec fn row_text(
    id: Seq<char>,
    live: bool,
    command: Seq<char>,
    shown_args: Seq<char>,
) -> Seq<char> {
    "  - "@ + padded(id, 18) + " "@ + padded(
        if live {
            "[ACTIVE]"@
        } else {
            "[INACTIVE]"@
        },
        10,
    ) + " command: "@ + command + " "@ + shown_args + "\n"@
}

/// A row of the list, where `shown_args` is what is shown of the server's arguments.
pub fn list_line(id: &str, live: bool, command: &str, shown_args: &str) -> (text: String)
    ensures
        text@ == row_text(id@, live, command@, shown_args@),
{
    let status: &str = if live {
        "[ACTIVE]"
    } else {
        "[INACTIVE]"
    };
    "  - ".to_owned().concat(pad(id, 18).as_str()).concat(" ").concat(
        pad(status, 10).as_str(),
    ).concat(" command: ").concat(command).concat(" ").concat(shown_args).concat("\n")
}

/// How a server is shown in the list.
pub open spec fn list_row(id: Seq<char>, entry: McpEntryV, live: bool) -> Seq<char> {
    row_text(id, live, entry.command, debug_texts(entry.args))
}

/// The rows of the list, one after the other.
pub open spec fn list_rows<P>(ids: Seq<Seq<char>>, state: StateV<P>) -> Seq<char>
    decreases ids.len(),
{
    if ids.len() == 0 {
        Seq::empty()
    } else {
        list_rows(ids.drop_last(), state) + list_row(
            ids.last(),
            state.config.mcp[ids.last()],
            state.proxies.contains_key(ids.last()),
        )
    }
}

/// What `/list` shows of the servers `ids`.
pub open spec fn list_text<P>(ids: Seq<Seq<char>>, state: StateV<P>) -> Seq<char> {
    "\nConfigured MCP Tools ("@ + decimal(ids.len()) + " total):\n"@ + if ids.len() == 0 {
        "  (No tools configured)\n"@
    } else {
        list_rows(ids, state)
    }
}

/// The servers are all listed, each once, in alphabetical order.
pub open spec fn shows_list<P>(text: Seq<char>, state: StateV<P>) -> bool {
    exists|ids: Seq<Seq<char>>| #[trigger]
        in_order(ids) && ids.no_duplicates() && ids.to_set() == state.config.mcp.dom() && text
            == list_text(ids, state)
}

/// What `/list` shows.
pub fn server_list<P>(state: &AppState<P>) -> (text: String)
    ensures
        shows_list(text@, state@),
{
    let ids: Vec<String> = state.ids();
    let ghost names = texts(ids@);
    let mut text: String = "\nConfigured MCP Tools (".to_owned().concat(
        decimal_text(ids.len() as u64).as_str(),
    ).concat(" total):\n");
    if ids.len() == 0 {
        text = text.concat("  (No tools configured)\n");
        assert(in_order(names));
        return text;
    }
    let ghost heading = text@;
    let mut i: usize = 0;
    assert(names.take(0) =~= Seq::empty());
    assert(heading + Seq::<char>::empty() =~= heading);
    while i < ids.len()
        invariant
            i <= ids@.len(),
            names == texts(ids@),
            names.to_set() == state@.config.mcp.dom(),
            text@ == heading + list_rows(names.take(i as int), state@),
        decreases ids@.len() - i,
    {
        let id: &str = ids[i].as_str();
        proof {
            assert(names[i as int] == id@);
            assert(names.contains(id@));
            assert(names.to_set().contains(id@));
            assert(state@.config.mcp.dom().contains(id@));
        }
        if let Some(entry) = state.settings().mcp.get(id) {
            let row: String = list_line(
                id,
                state.is_live(id),
                entry.command.as_str(),
                show_texts(&entry.args).as_str(),
            );
            let ghost before = text@;
            text = text.concat(row.as_str());
            proof {
                assert(state@.config.mcp[id@] == entry@);
                assert(row@ == list_row(id@, entry@, state@.proxies.contains_key(id@)));
                let so_far = names.take(i + 1);
                assert(so_far.drop_last() =~= names.take(i as int));
                assert(so_far.last() == id@);
                assert(text@ =~= heading + list_rows(so_far, state@));
            }
        }
        i = i + 1;
    }
    proof {
        assert(names.take(ids@.len() as int) =~= names);
        assert(in_order(names));
    }
    text
}

/// What `/status` shows of `total` servers, of which `live` are live; `shown` is what is shown
/// of the ids of those.
pub open spec fn status_lines(
    host: Seq<char>,
    port: u16,
    total: nat,
    live: nat,
    shown: Seq<char>,
) -> Seq<char> {
    "\nProxy Status:\n  - Address:       http://"@ + host + ":"@ + decimal(port as nat)
        + "\n  - Total Tools:   "@ + decimal(total) + "\n  - Live Proxies:  "@ + decimal(live)
        + "\n"@ + if live == 0 {
        Seq::empty()
    } else {
        "  - Active Slugs:  "@ + shown + "\n"@
    }
}

/// What `/status` shows of `total` servers, of which `live` are live; `shown` is what is shown
/// of the ids of those.
pub fn status_page(
    server: &ServerSection,
    total: usize,
    live: usize,
    shown: &str,
) -> (text: String)
    ensures
        text@ == status_lines(server.host@, server.port, total as nat, live as nat, shown@),
{
    let mut text: String = "\nProxy Status:\n  - Address:       http://".to_owned().concat(
        server.host.as_str(),
    ).concat(":").concat(decimal_text(server.port as u64).as_str()).concat(
        "\n  - Total Tools:   ",
    ).concat(decimal_text(total as u64).as_str()).concat("\n  - Live Proxies:  ").concat(
        decimal_text(live as u64).as_str(),
    ).concat("\n");
    if live > 0 {
        let ghost before = text@;
        text = text.concat("  - Active Slugs:  ").concat(shown).concat("\n");
        assert(text@ =~= before + ("  - Active Slugs:  "@ + shown@ + "\n"@));
    } else {
        assert(text@ + Seq::<char>::empty() =~= text@);
    }
    text
}

/// The live proxies are all shown, each once.
pub open spec fn shows_status<P>(text: Seq<char>, state: StateV<P>) -> bool {
    exists|live: Seq<Seq<char>>| #[trigger]
        live.no_duplicates() && live.to_set() == state.proxies.dom() && text == status_lines(
            state.config.host,
            state.config.port,
            state.config.mcp.len(),
            state.proxies.len(),
            debug_texts(live),
        )
}

/// What `/status` shows.
pub fn status<P>(state: &AppState<P>) -> (text: String)
    ensures
        shows_status(text@, state@),
{
    let config: &Config = state.settings();
    let total: usize = config.mcp.len();
    let live: Vec<String> = state.live_ids();
    let ghost names = texts(live@);
    proof {
        assert(state@.config.mcp.dom() =~= config.mcp@.dom());
        names.unique_seq_to_set();
        assert(names.no_duplicates());
    }
    status_page(&config.server, total, live.len(), show_texts(&live).as_str())
}

/// What is left to do for a command, once the state has changed as it asks.
#[derive(Debug)]
pub enum Action<P> {
    /// Show the text.
    Show(String),
    /// Read the configuration anew; then show what `reload_report` says.
    Reload,
    /// Stop what stands behind `proxy`, and save the configuration where `save` says so, whatever
    /// comes of it; then show the text.
    StopAndShow { text: String, save: bool, proxy: Option<P> },
    /// Save the configuration; then show the text, or what `save_failed` says.
    SaveAndShow(String),
    /// Show the text, and end the program.
    ShowAndExit(String),
}

/// What is shown of a disabled server.
pub open spec fn disabled_text(name: Seq<char>, found: bool) -> Seq<char> {
    if found {
        "Success: tool \""@ + name + "\" has been disabled and stopped successfully."@
    } else {
        "Error: tool \""@ + name + "\" not found in active configurations."@
    }
}

/// What is shown of an added server once it is saved.
pub open spec fn added_text(name: Seq<char>, command: Seq<char>) -> Seq<char> {
    if is_url(command) {
        "Success: gateway HTTP/Streamable tool \""@ + name
            + "\" added and saved successfully. Proxying to external: "@ + command
    } else {
        "Success: tool \""@ + name
            + "\" has been added/updated and saved successfully with command '"@ + command
            + "'. Connect to it at http://localhost:9000/"@ + name + "/sse or /"@ + name + "/mcp"@
    }
}

/// The entry of a server that is added at the console.
pub open spec fn added_entry(command: Seq<char>, args: Seq<Seq<char>>) -> McpEntryV {
    McpEntryV { command, args, env: Map::empty(), cwd: None, is_http: is_url(command) }
}

/// `action` and the state `after` are what command `command` comes to in the state `before`.
pub open spec fn carried_out<P>(
    command: CommandV,
    before: StateV<P>,
    after: StateV<P>,
    action: Action<P>,
) -> bool {
    match command {
        CommandV::Help => after == before && (action matches Action::Show(text) && text@
            == help_text()),
        CommandV::Reload => after == before && action is Reload,
        CommandV::Disable { name } => after == disabled(before, name) && (
        action matches Action::StopAndShow { text, save, proxy } && text@ == disabled_text(
            name,
            before.config.mcp.contains_key(name) || before.proxies.contains_key(name),
        ) && save == before.config.mcp.contains_key(name) && proxy == live_proxy(before, name)),
        CommandV::Add { name, command, args } => after == added(
            before,
            name,
            added_entry(command, args),
        ) && (action matches Action::SaveAndShow(text) && text@ == added_text(name, command)),
        CommandV::List => after == before && (action matches Action::Show(text) && shows_list(
            text@,
            before,
        )),
        CommandV::Status => after == before && (action matches Action::Show(text) && shows_status(
            text@,
            before,
        )),
        CommandV::Exit => after == before && (action matches Action::ShowAndExit(text) && text@
            == "Shutting down mcp-server gracefully..."@),
        CommandV::Complaint(said) => after == before && (action matches Action::Show(text) && text@
            == said),
    }
}

/// Does what a command asks of the state; the action is what is left.
pub fn run_command<P>(command: Command, state: &mut AppState<P>) -> (action: Action<P>)
    ensures
        carried_out(command@, old(state)@, final(state)@, action),
{
    match command {
        Command::Help => Action::Show(help()),
        Command::Reload => Action::Reload,
        Command::Disable { name } => {
            let result = state.disable_server(name.as_str());
            let text: String = if result.found {
                "Success: tool \"".to_owned().concat(name.as_str()).concat(
                    "\" has been disabled and stopped successfully.",
                )
            } else {
                "Error: tool \"".to_owned().concat(name.as_str()).concat(
                    "\" not found in active configurations.",
                )
            };
            Action::StopAndShow { text, save: result.save, proxy: result.proxy }
        },
        Command::Add { name, command, args } => {
            let is_http: bool = is_http_url(command.as_str());
            let text: String = if is_http {
                "Success: gateway HTTP/Streamable tool \"".to_owned().concat(name.as_str()).concat(
                    "\" added and saved successfully. Proxying to external: ",
                ).concat(command.as_str())
            } else {
                "Success: tool \"".to_owned().concat(name.as_str()).concat(
                    "\" has been added/updated and saved successfully with command '",
                ).concat(command.as_str()).concat(
                    "'. Connect to it at http://localhost:9000/",
                ).concat(name.as_str()).concat("/sse or /").concat(name.as_str()).concat("/mcp")
            };
            let env: Table<String> = Table::new();
            let entry = McpEntry { command, args, env, cwd: None, is_http };
            assert(entry@.env =~= Map::empty());
            assert(entry@ == added_entry(command@, texts(args@)));
            state.add_server(name, entry);
            Action::SaveAndShow(text)
        },
        Command::List => Action::Show(server_list(state)),
        Command::Status => Action::Show(status(state)),
        Command::Exit => Action::ShowAndExit("Shutting down mcp-server gracefully...".to_owned()),
        Command::Complaint(text) => Action::Show(text),
    }
}

/// What is shown of a reload.
pub fn reload_report(outcome: Result<()>) -> (text: String)
    ensures
        text@ == (match outcome {
            Ok(_) => "Success: configuration reloaded from disk."@,
            Err(e) => "Error reloading config: "@ + e.message(),
        }),
{
    match outcome {
        Ok(()) => "Success: configuration reloaded from disk.".to_owned(),
        Err(e) => "Error reloading config: ".to_owned().concat(e.to_string().as_str()),
    }
}

/// What is shown where the configuration could not be saved.
pub fn save_failed(e: &ProxyError) -> (text: String)
    ensures
        text@ == "Error saving configuration change to disk: "@ + e.message(),
{
    "Error saving configuration change to disk: ".to_owned().concat(e.to_string().as_str())
}

/// Does what a line asks of the state; the action is what is left.
pub fn handle_command<P>(input: &str, state: &mut AppState<P>) -> (action: Action<P>)
    ensures
        carried_out(parsed(input@), old(state)@, final(state)@, action),
{
    run_command(parse_command(input), state)
}

/// Takes a line that was typed. Nothing is done for a blank one.
pub fn handle_line<P>(line: &str, state: &mut AppState<P>) -> (action: Option<Action<P>>)
    ensures
        (match action {
            Some(a) => trimmed(line@).len() > 0 && carried_out(
                parsed(line@),
                old(state)@,
                final(state)@,
                a,
            ),
            None => trimmed(line@).len() == 0 && final(state)@ == old(state)@,
        }),
{
    if trim(&chars_of(line)).len() == 0 {
        None
    } else {
        Some(handle_command(line, state))
    }
}

/// A row of the list shows the whole id, whether the server is live, the whole command and what is
/// shown of its arguments, in this order, in one line.
pub proof fn law_a_row_shows_the_server_whole(
    id: Seq<char>,
    live: bool,
    command: Seq<char>,
    shown: Seq<char>,
    entry: McpEntryV,
)
    ensures
        row_text(id, live, command, shown) == "  - "@ + padded(id, 18) + (if live {
            " [ACTIVE]   command: "@
        } else {
            " [INACTIVE] command: "@
        }) + command + " "@ + shown + "\n"@,
        begins(row_text(id, live, command, shown), "  - "@ + id),
        list_row(id, entry, live) == row_text(id, live, entry.command, debug_texts(entry.args)),
{
    reveal_strlit(" ");
    reveal_strlit(" command: ");
    reveal_strlit("[ACTIVE]");
    reveal_strlit("[INACTIVE]");
    reveal_strlit(" [ACTIVE]   command: ");
    reveal_strlit(" [INACTIVE] command: ");
    let text = row_text(id, live, command, shown);
    let whole = "  - "@ + padded(id, 18) + (if live {
        " [ACTIVE]   command: "@
    } else {
        " [INACTIVE] command: "@
    }) + command + " "@ + shown + "\n"@;
    assert(text =~= whole);
    law_padded_is_the_text_and_spaces(id, 18);
    assert(padded(id, 18).take(id.len() as int) == id);
    assert(text.take(("  - "@ + id).len() as int) =~= "  - "@ + id);
}

/// The list has one row for each server, in the order of the ids: the rows of two lists one after
/// the other are those of both.
pub proof fn law_rows_stand_one_after_the_other<P>(
    a: Seq<Seq<char>>,
    id: Seq<char>,
    b: Seq<Seq<char>>,
    state: StateV<P>,
)
    ensures
        list_rows(a + b, state) == list_rows(a, state) + list_rows(b, state),
        list_rows(seq![id], state) == row_text(
            id,
            state.proxies.contains_key(id),
            state.config.mcp[id].command,
            debug_texts(state.config.mcp[id].args),
        ),
        list_rows(Seq::empty(), state) == Seq::<char>::empty(),
    decreases b.len(),
{
    assert(seq![id].drop_last() =~= Seq::<Seq<char>>::empty());
    assert(list_rows(Seq::<Seq<char>>::empty(), state) =~= Seq::<char>::empty());
    assert(list_rows(seq![id], state) =~= list_row(
        id,
        state.config.mcp[id],
        state.proxies.contains_key(id),
    ));
    if b.len() == 0 {
        assert(a + b =~= a);
        assert(list_rows(a, state) + list_rows(b, state) =~= list_rows(a, state));
    } else {
        law_rows_stand_one_after_the_other(a, id, b.drop_last(), state);
        assert((a + b).drop_last() =~= a + b.drop_last());
        assert((a + b).last() == b.last());
        assert(list_rows(a + b, state) =~= list_rows(a, state) + list_rows(b, state));
    }
}

/// The list says how many servers there are, and then shows a row for each.
pub proof fn law_the_list_counts_and_shows<P>(
    ids: Seq<Seq<char>>,
    text: Seq<char>,
    state: StateV<P>,
)
    ensures
        ids.len() > 0 ==> list_text(ids, state) == "\nConfigured MCP Tools ("@ + decimal(ids.len())
            + " total):\n"@ + list_rows(ids, state),
        ids.len() == 0 ==> list_text(ids, state) == "\nConfigured MCP Tools ("@ + decimal(0)
            + " total):\n"@ + "  (No tools configured)\n"@,
        shows_list(text, state) && in_order(ids) && ids.no_duplicates() && ids.to_set()
            == state.config.mcp.dom() ==> text == list_text(ids, state),
{
    if shows_list(text, state) && in_order(ids) && ids.no_duplicates() && ids.to_set()
        == state.config.mcp.dom() {
        let shown = choose|shown: Seq<Seq<char>>| #[trigger]
            in_order(shown) && shown.no_duplicates() && shown.to_set() == state.config.mcp.dom()
                && text == list_text(shown, state);
        law_order_is_unique(ids, shown);
    }
}

/// The status shows where the gateway listens, how many servers there are and how many are live,
/// and the ids of those where there are any.
pub proof fn law_the_status_shows_the_listener_and_counts<P>(
    host: Seq<char>,
    port: u16,
    total: nat,
    live: nat,
    shown: Seq<char>,
    text: Seq<char>,
    state: StateV<P>,
)
    ensures
        status_lines(host, port, total, live, shown) == "\nProxy Status:\n  - Address:       http://"@
            + host + ":"@ + decimal(port as nat) + "\n  - Total Tools:   "@ + decimal(total)
            + "\n  - Live Proxies:  "@ + decimal(live) + "\n"@ + (if live > 0 {
            "  - Active Slugs:  "@ + shown + "\n"@
        } else {
            Seq::empty()
        }),
        shows_status(text, state) ==> exists|ids: Seq<Seq<char>>| #[trigger]
            ids.no_duplicates() && ids.to_set() == state.proxies.dom() && text == status_lines(
                state.config.host,
                state.config.port,
                state.config.mcp.len(),
                state.proxies.len(),
                debug_texts(ids),
            ),
{
}

/// What is shown of a server that was disabled or added names it whole, and its command too.
pub proof fn law_reports_name_the_server(name: Seq<char>, command: Seq<char>)
    ensures
        disabled_text(name, true) == "Success: tool \""@ + name
            + "\" has been disabled and stopped successfully."@,
        disabled_text(name, false) == "Error: tool \""@ + name
            + "\" not found in active configurations."@,
        is_url(command) ==> added_text(name, command)
            == "Success: gateway HTTP/Streamable tool \""@ + name
            + "\" added and saved successfully. Proxying to external: "@ + command,
        !is_url(command) ==> added_text(name, command) == "Success: tool \""@ + name
            + "\" has been added/updated and saved successfully with command '"@ + command
            + "'. Connect to it at http://localhost:9000/"@ + name + "/sse or /"@ + name + "/mcp"@,
{
}

/// A server that is added at the console has the command and the arguments that were typed, no
/// environment and no directory; it is one of an endpoint exactly where the command is a URL.
pub proof fn law_a_typed_server_has_what_was_typed(command: Seq<char>, args: Seq<Seq<char>>)
    ensures
        ({
            let entry = added_entry(command, args);
            &&& entry.command == command
            &&& entry.args == args
            &&& entry.env.dom() == Set::<Seq<char>>::empty()
            &&& entry.cwd is None
            &&& entry.is_http <==> is_url(command)
        }),
{
    assert(added_entry(command, args).env.dom() =~= Set::<Seq<char>>::empty());
}

/// A command does to the state what it names and nothing else: disabling takes out one server and
/// hands out its proxy, adding puts in one, and no other command changes anything.
pub proof fn law_commands_change_one_server_at_most<P>(
    command: CommandV,
    before: StateV<P>,
    after: StateV<P>,
    action: Action<P>,
    other: Seq<char>,
)
    requires
        carried_out(command, before, after, action),
    ensures
        !(command is Disable) && !(command is Add) ==> after == before,
        command matches CommandV::Disable { name } ==> {
            let live = before.proxies.contains_key(name);
            let configured = before.config.mcp.contains_key(name);
            &&& !after.config.mcp.contains_key(name) && !after.proxies.contains_key(name)
            &&& action matches Action::StopAndShow { text, save, proxy } && save == configured && (
            proxy is Some) == live && (live ==> proxy->Some_0 == before.proxies[name]) && text@
                == disabled_text(name, live || configured)
        },
        command matches CommandV::Add { name, command: typed, args } ==> {
            &&& after.config.mcp.contains_key(name)
            &&& after.config.mcp[name] == (McpEntryV {
                command: typed,
                args,
                env: Map::empty(),
                cwd: None,
                is_http: is_url(typed),
            })
            &&& after.proxies == before.proxies
            &&& action matches Action::SaveAndShow(text) && text@ == added_text(name, typed)
        },
        !(command matches CommandV::Disable { name } && name == other) && !(
        command matches CommandV::Add { name, .. } && name == other) ==> {
            &&& after.config.mcp.contains_key(other) == before.config.mcp.contains_key(other)
            &&& before.config.mcp.contains_key(other) ==> after.config.mcp[other]
                == before.config.mcp[other]
            &&& after.proxies.contains_key(other) == before.proxies.contains_key(other)
            &&& before.proxies.contains_key(other) ==> after.proxies[other]
                == before.proxies[other]
        },
        after.config_path == before.config_path,
        after.config.host == before.config.host && after.config.port == before.config.port,
{
}

/// A command that shows something shows just that: the help, the list, the status, the farewell
/// or the complaint; and only the one command reads the configuration anew.
pub proof fn law_commands_show_what_was_asked<P>(
    command: CommandV,
    before: StateV<P>,
    after: StateV<P>,
    action: Action<P>,
)
    requires
        carried_out(command, before, after, action),
    ensures
        command is Reload <==> action is Reload,
        command is Exit <==> action is ShowAndExit,
        command is Help ==> (action matches Action::Show(text) && text@ == help_text()),
        command is List ==> (action matches Action::Show(text) && shows_list(text@, before)),
        command is Status ==> (action matches Action::Show(text) && shows_status(text@, before)),
        command matches CommandV::Complaint(said) ==> (action matches Action::Show(text) && text@
            == said),
        action matches Action::ShowAndExit(text) ==> text@
            == "Shutting down mcp-server gracefully..."@,
{
}

/// The help names every command, each in a line of its own with what it does.
pub proof fn law_the_help_names_every_command()
    ensures
        help_text() == "\n----------------------- AVAILABLE COMMANDS -----------------------\n"@
            + "  /help                          Show this help documentation section\n"@
            + "  /list                          List all configured tools with status\n"@
            + "  /status                        Show active server stats and listener options\n"@
            + "  /mcp add \"slug\" <cmd> <args>   Add / update an MCP tool process config\n"@
            + "  /mcp disable \"slug\"            Stop and disable an active MCP tool\n"@
            + "  /mcp server reload             Reload config file dynamically from disk\n"@
            + "  /exit, /shutdown               Gracefully exit the proxy server\n"@
            + "------------------------------------------------------------------\n"@,
        banner_text() == "\n========================================================\n"@
            + "       MCP-SERVER INTERACTIVE POWER CONSOLE / TUI       \n"@
            + "========================================================\n"@
            + "Type /help or /mcp help to view all available commands.\n"@
            + "Type /list to show status of configured stdio tools.\n"@
            + "========================================================\n"@,
{
}

} // verus!
