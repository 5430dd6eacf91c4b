//! The configured servers.

use vstd::prelude::*;

use crate::error::{ProxyError, Result};
use crate::table::Table;
use crate::text::{
    begins, chars_of, decimal, decimal_text, law_begins_with_what_stands_in_front, same_text,
    starts_with,
};

verus! {

/// The whole configuration.
#[derive(Debug)]
pub struct Config {
    pub server: ServerSection,
    pub mcp: Table<McpEntry>,
}

/// Where the gateway listens.
#[derive(Debug)]
pub struct ServerSection {
    pub host: String,
    pub port: u16,
}

/// How one server is reached: a command to run, or the URL of an HTTP endpoint.
#[derive(Debug)]
pub struct McpEntry {
    pub command: String,
    pub args: Vec<String>,
    pub env: Table<String>,
    pub cwd: Option<String>,
    pub is_http: bool,
}

/// What an entry says.
pub struct McpEntryV {
    pub command: Seq<char>,
    pub args: Seq<Seq<char>>,
    pub env: Map<Seq<char>, Seq<char>>,
    pub cwd: Option<Seq<char>>,
    pub is_http: bool,
}

impl View for McpEntry {
    type V = McpEntryV;

    open spec fn view(&self) -> McpEntryV {
        McpEntryV {
            command: self.command@,
            args: self.args@.map_values(|a: String| a@),
            env: self.env@.map_values(|v: String| v@),
            cwd: match self.cwd {
                Some(dir) => Some(dir@),
                None => None,
            },
            is_http: self.is_http,
        }
    }
}

/// What a configuration says.
#[verifier::ext_equal]
pub struct ConfigV {
    pub host: Seq<char>,
    pub port: u16,
    pub mcp: Map<Seq<char>, McpEntryV>,
}

impl View for Config {
    type V = ConfigV;

    open spec fn view(&self) -> ConfigV {
        ConfigV {
            host: self.server.host@,
            port: self.server.port,
            mcp: self.mcp@.map_values(|e: McpEntry| e@),
        }
    }
}

pub fn default_host() -> (host: String)
    ensures
        host@ == "127.0.0.1"@,
{
    "127.0.0.1".to_owned()
}

pub fn default_port() -> (port: u16)
    ensures
        port == 9000,
{
    9000
}

/// Whether a flag stands at its default and need not be written.
pub fn is_false(b: &bool) -> (r: bool)
    ensures
        r == !*b,
{
    !*b
}

impl Default for ServerSection {
    fn default() -> (section: Self)
        ensures
            section.host@ == "127.0.0.1"@,
            section.port == 9000,
    {
        ServerSection { host: default_host(), port: default_port() }
    }
}

impl Clone for ServerSection {
    fn clone(&self) -> (copy: Self)
        ensures
            copy.host@ == self.host@,
            copy.port == self.port,
    {
        ServerSection { host: self.host.clone(), port: self.port }
    }
}

impl Clone for McpEntry {
    fn clone(&self) -> (copy: Self)
        ensures
            copy@ == self@,
    {
        let mut args: Vec<String> = Vec::new();
        let mut i: usize = 0;
        while i < self.args.len()
            invariant
                i <= self.args@.len(),
                args@.len() == i,
                forall|j: int| 0 <= j < i ==> #[trigger] args@[j]@ == self.args@[j]@,
            decreases self.args@.len() - i,
        {
            args.push(self.args[i].clone());
            i = i + 1;
        }
        let copy = McpEntry {
            command: self.command.clone(),
            args,
            env: self.env.clone(),
            cwd: match &self.cwd {
                Some(dir) => Some(dir.clone()),
                None => None,
            },
            is_http: self.is_http,
        };
        assert(copy@.args =~= self@.args);
        assert(copy@.env =~= self@.env);
        copy
    }
}

impl Clone for Config {
    fn clone(&self) -> (copy: Self)
        ensures
            copy@ == self@,
    {
        let copy = Config { server: self.server.clone(), mcp: self.mcp.clone() };
        assert(copy@.mcp =~= self@.mcp);
        copy
    }
}

pub open spec fn ascii_alphanumeric(c: char) -> bool {
    'a' <= c <= 'z' || 'A' <= c <= 'Z' || '0' <= c <= '9'
}

/// A server id is `^[A-Za-z0-9][A-Za-z0-9_-]*$`.
pub open spec fn is_slug(s: Seq<char>) -> bool {
    &&& s.len() > 0
    &&& ascii_alphanumeric(s[0])
    &&& forall|i: int|
        0 < i < s.len() ==> ascii_alphanumeric(#[trigger] s[i]) || s[i] == '-' || s[i] == '_'
}

fn is_ascii_alphanumeric(c: char) -> (r: bool)
    ensures
        r == ascii_alphanumeric(c),
{
    ('a' <= c && c <= 'z') || ('A' <= c && c <= 'Z') || ('0' <= c && c <= '9')
}

/// Accepts a server id that is a slug.
pub fn validate_slug(s: &str) -> (r: Result<()>)
    ensures
        r is Ok <==> is_slug(s@),
        r matches Err(e) ==> (e matches ProxyError::InvalidServerId(id) && id@ == s@),
{
    let chars: Vec<char> = chars_of(s);
    if chars.len() == 0 {
        return Err(ProxyError::InvalidServerId(s.to_owned()));
    }
    if !is_ascii_alphanumeric(chars[0]) {
        return Err(ProxyError::InvalidServerId(s.to_owned()));
    }
    let mut i: usize = 1;
    while i < chars.len()
        invariant
            1 <= i <= chars@.len(),
            chars@ == s@,
            forall|j: int|
                0 < j < i ==> ascii_alphanumeric(#[trigger] s@[j]) || s@[j] == '-' || s@[j] == '_',
        decreases chars@.len() - i,
    {
        let c: char = chars[i];
        if !(is_ascii_alphanumeric(c) || c == '-' || c == '_') {
            assert(s@[i as int] == c);
            return Err(ProxyError::InvalidServerId(s.to_owned()));
        }
        i = i + 1;
    }
    Ok(())
}

/// Accepts a configuration in which every server id is a slug.
pub fn validate_ids(config: &Config) -> (r: Result<()>)
    ensures
        r is Ok <==> forall|id: Seq<char>| #[trigger] config@.mcp.contains_key(id) ==> is_slug(id),
        r matches Err(e) ==> (e matches ProxyError::InvalidServerId(id)
            && config@.mcp.contains_key(id@) && !is_slug(id@)),
{
    let count: usize = config.mcp.len();
    let ghost names = config.mcp.names();
    assert(names.to_set() == config@.mcp.dom());
    let mut i: usize = 0;
    while i < count
        invariant
            i <= count == names.len(),
            names == config.mcp.names(),
            names.to_set() == config@.mcp.dom(),
            forall|j: int| 0 <= j < i ==> is_slug(#[trigger] names[j]),
        decreases count - i,
    {
        let id: &String = config.mcp.row(i).0;
        match validate_slug(id.as_str()) {
            Ok(()) => {},
            Err(e) => {
                assert(names.contains(id@));
                assert(config@.mcp.dom().contains(id@));
                return Err(e);
            },
        }
        i = i + 1;
    }
    proof {
        assert forall|id: Seq<char>| #[trigger] config@.mcp.contains_key(id) implies is_slug(id) by {
            assert(names.to_set().contains(id));
            let j = choose|j: int| 0 <= j < names.len() && names[j] == id;
            assert(is_slug(names[j]));
        }
    }
    Ok(())
}

/// A command that is the URL of an HTTP endpoint.
pub open spec fn is_url(command: Seq<char>) -> bool {
    begins(command, "http://"@) || begins(command, "https://"@)
}

/// Whether a command is the URL of an HTTP endpoint.
pub fn is_http_url(command: &str) -> (r: bool)
    ensures
        r == is_url(command@),
{
    starts_with(command, "http://") || starts_with(command, "https://")
}

/// Whether two lists hold the same texts in the same order.
fn same_texts(a: &Vec<String>, b: &Vec<String>) -> (same: bool)
    ensures
        same == (a@.map_values(|s: String| s@) == b@.map_values(|s: String| s@)),
{
    let ghost left = a@.map_values(|s: String| s@);
    let ghost right = b@.map_values(|s: String| s@);
    if a.len() != b.len() {
        assert(left.len() != right.len());
        return false;
    }
    let mut i: usize = 0;
    while i < a.len()
        invariant
            i <= a@.len() == b@.len(),
            left == a@.map_values(|s: String| s@),
            right == b@.map_values(|s: String| s@),
            forall|j: int| 0 <= j < i ==> #[trigger] left[j] == right[j],
        decreases a@.len() - i,
    {
        if !same_text(a[i].as_str(), b[i].as_str()) {
            assert(left[i as int] != right[i as int]);
            return false;
        }
        i = i + 1;
    }
    assert(left =~= right);
    true
}

/// Whether two tables of texts hold the same texts under the same names.
fn same_tables(a: &Table<String>, b: &Table<String>) -> (same: bool)
    ensures
        same == (a@.map_values(|s: String| s@) == b@.map_values(|s: String| s@)),
{
    let ghost left = a@.map_values(|s: String| s@);
    let ghost right = b@.map_values(|s: String| s@);
    let count: usize = a.len();
    if count != b.len() {
        assert(left.dom() =~= a@.dom());
        assert(right.dom() =~= b@.dom());
        assert(left.dom().len() != right.dom().len());
        return false;
    }
    let ghost names = a.names();
    let mut i: usize = 0;
    while i < count
        invariant
            i <= count == names.len(),
            names == a.names(),
            left == a@.map_values(|s: String| s@),
            right == b@.map_values(|s: String| s@),
            forall|j: int|
                #![trigger names[j]]
                0 <= j < i ==> right.contains_key(names[j]) && right[names[j]] == left[names[j]],
        decreases count - i,
    {
        let row: (&String, &String) = a.row(i);
        match b.get(row.0.as_str()) {
            Some(other) => {
                if !same_text(row.1.as_str(), other.as_str()) {
                    assert(left[row.0@] != right[row.0@]);
                    return false;
                }
            },
            None => {
                assert(left.contains_key(row.0@));
                assert(!right.contains_key(row.0@));
                return false;
            },
        }
        i = i + 1;
    }
    proof {
        assert(left.dom() =~= a@.dom());
        assert(right.dom() =~= b@.dom());
        assert forall|k: Seq<char>| #[trigger] left.contains_key(k) implies right.contains_key(k)
            && right[k] == left[k] by {
            assert(names.to_set().contains(k));
            let j = choose|j: int| 0 <= j < names.len() && names[j] == k;
            assert(right.contains_key(names[j]));
        }
        assert(left.dom().subset_of(right.dom()));
        vstd::set_lib::lemma_subset_equality(left.dom(), right.dom());
        assert(left =~= right);
    }
    true
}

/// Whether two entries say the same.
pub fn same_entry(a: &McpEntry, b: &McpEntry) -> (same: bool)
    ensures
        same == (a@ == b@),
{
    let same_cwd: bool = match (&a.cwd, &b.cwd) {
        (Some(x), Some(y)) => same_text(x.as_str(), y.as_str()),
        (None, None) => true,
        _ => false,
    };
    same_cwd && a.is_http == b.is_http && same_text(a.command.as_str(), b.command.as_str())
        && same_texts(&a.args, &b.args) && same_tables(&a.env, &b.env)
}

/// Puts a host and a port in place of the configured ones, where given.
pub fn override_listener(server: &mut ServerSection, host: Option<String>, port: Option<u16>)
    ensures
        final(server).host@ == (match host {
            Some(h) => h@,
            None => old(server).host@,
        }),
        final(server).port == (match port {
            Some(p) => p,
            None => old(server).port,
        }),
{
    if let Some(h) = host {
        server.host = h;
    }
    if let Some(p) = port {
        server.port = p;
    }
}

/// The address that the gateway listens on, as host and port.
pub fn bind_addr(server: &ServerSection) -> (addr: String)
    ensures
        addr@ == server.host@ + ":"@ + decimal(server.port as nat),
{
    server.host.clone().concat(":").concat(decimal_text(server.port as u64).as_str())
}

/// A server id is made of ASCII letters, digits, hyphens and underscores, of which the last two do
/// not come first. There is no other rule: a slug with such a character behind it is a slug, and a
/// slug cut off anywhere but at its front is one.
pub proof fn law_slugs_are_letters_digits_hyphens_and_underscores(
    s: Seq<char>,
    c: char,
    i: int,
)
    ensures
        !is_slug(Seq::<char>::empty()),
        is_slug(seq![c]) <==> ('a' <= c <= 'z' || 'A' <= c <= 'Z' || '0' <= c <= '9'),
        s.len() > 0 ==> (is_slug(s.push(c)) <==> is_slug(s) && ('a' <= c <= 'z' || 'A' <= c <= 'Z'
            || '0' <= c <= '9' || c == '-' || c == '_')),
        is_slug(s) && 0 < i <= s.len() ==> is_slug(s.take(i)),
{
    let one = seq![c];
    if s.len() > 0 {
        let more = s.push(c);
        assert(more[0] == s[0]);
        if is_slug(more) {
            assert(more[s.len() as int] == c);
            assert forall|j: int| 0 < j < s.len() implies ascii_alphanumeric(#[trigger] s[j])
                || s[j] == '-' || s[j] == '_' by {
                assert(more[j] == s[j]);
            }
        }
        if is_slug(s) && (ascii_alphanumeric(c) || c == '-' || c == '_') {
            assert forall|j: int| 0 < j < more.len() implies ascii_alphanumeric(#[trigger] more[j])
                || more[j] == '-' || more[j] == '_' by {
                if j < s.len() {
                    assert(more[j] == s[j]);
                }
            }
        }
    }
}

/// A command is a URL exactly where it is one of the two schemes and something behind it.
pub proof fn law_urls_are_told_by_their_scheme(command: Seq<char>, rest: Seq<char>)
    ensures
        is_url("http://"@ + rest),
        is_url("https://"@ + rest),
        is_url(command) ==> command == "http://"@ + command.skip("http://"@.len() as int) || command
            == "https://"@ + command.skip("https://"@.len() as int),
{
    law_begins_with_what_stands_in_front(command, "http://"@, rest);
    law_begins_with_what_stands_in_front(command, "https://"@, rest);
}

/// Two entries say the same exactly where every setting is the same: command, arguments in their
/// order, environment, directory and kind.
pub proof fn law_every_setting_counts(a: McpEntry, b: McpEntry)
    ensures
        a@ == b@ <==> {
            &&& a.command@ == b.command@
            &&& a.args@.map_values(|s: String| s@) == b.args@.map_values(|s: String| s@)
            &&& a.env@.map_values(|s: String| s@) == b.env@.map_values(|s: String| s@)
            &&& (a.cwd is Some) == (b.cwd is Some)
            &&& a.cwd is Some ==> a.cwd->Some_0@ == b.cwd->Some_0@
            &&& a.is_http == b.is_http
        },
        a@.command == a.command@,
        a@.args.len() == a.args@.len(),
        a@.env.dom() == a.env@.dom(),
        a@.is_http == a.is_http,
        (a@.cwd is Some) == (a.cwd is Some),
        a.cwd is Some ==> a@.cwd->Some_0 == a.cwd->Some_0@,
        forall|i: int| 0 <= i < a.args@.len() ==> #[trigger] a@.args[i] == a.args@[i]@,
        forall|k: Seq<char>| #[trigger] a.env@.contains_key(k) ==> a@.env[k] == a.env@[k]@,
{
}

/// A configuration is its listener and the entry of each of its servers.
pub proof fn law_a_configuration_is_its_listener_and_servers(config: Config, id: Seq<char>)
    ensures
        config@.host == config.server.host@,
        config@.port == config.server.port,
        config@.mcp.contains_key(id) == config.mcp@.contains_key(id),
        config.mcp@.contains_key(id) ==> config@.mcp[id] == config.mcp@[id]@,
{
}

} // verus!
