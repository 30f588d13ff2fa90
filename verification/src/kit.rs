//! The kit's configuration and the launcher's decisions: where the
//! runtime files live, what the command line asks for, when a peer counts
//! as healthy, how many records the journal holds, and which public URL a
//! quick tunnel announced.

use vstd::prelude::*;

use crate::http::HttpText;
use crate::text::{
    chars_of, decimal, find_in_suffix, first_occurrence, parse_unsigned, parse_unsigned_bounded,
    pattern, push_decimal, starts_with, starts_with_at, str_eq, string_of_chars,
};

verus! {

/// The kit's configuration: the checkout, the runtime state directory,
/// the registry source checkout, and the listen address.
pub struct Kit {
    /// The kit checkout (the directory that holds `bin/` and `data/`).
    pub root: String,
    /// The runtime state directory (`KIT_HOME`, default `<kit>/data`).
    pub home: String,
    /// The unidpp-registry source checkout (`KIT_REGISTRY_DIR`).
    pub registry_dir: String,
    /// The listen port (`KIT_PORT`, default 8391).
    pub port: u16,
    /// The listen address (`KIT_BIND`, default 127.0.0.1).
    pub bind: String,
}

/// `Path::join` of a relative or absolute component: an absolute component
/// replaces the base; otherwise a `/` separates the two unless the base is
/// empty or already ends with one.
pub open spec fn join_path(base: Seq<char>, rel: Seq<char>) -> Seq<char> {
    if rel.len() > 0 && rel[0] == '/' {
        rel
    } else if base.len() == 0 || base.last() == '/' {
        base + rel
    } else {
        base + seq!['/'] + rel
    }
}

/// Joins a path component onto a base path.
pub fn join_path_exec(base: &str, rel: &str) -> (r: String)
    ensures
        r@ == join_path(base@, rel@),
{
    let b = crate::text::chars_of(base);
    let r = crate::text::chars_of(rel);
    proof {
        reveal_strlit("/");
    }
    if r.len() > 0 && r[0] == '/' {
        rel.to_owned()
    } else if b.len() == 0 || b[b.len() - 1] == '/' {
        crate::text::concat2(base, rel)
    } else {
        crate::text::concat3(base, "/", rel)
    }
}

/// An environment setting with its default: an unset or empty value
/// falls back to the default.
pub open spec fn setting_or(value: Option<Seq<char>>, default: Seq<char>) -> Seq<char> {
    match value {
        Some(v) => if v.len() > 0 {
            v
        } else {
            default
        },
        None => default,
    }
}

fn setting_or_exec(value: Option<String>, default: String) -> (r: String)
    ensures
        r@ == setting_or(crate::http::view_opt(value), default@),
{
    match value {
        Some(v) => if v.as_str().is_empty() {
            default
        } else {
            v
        },
        None => default,
    }
}

/// The message for a `KIT_PORT` that is not a port number.
pub open spec fn bad_port_message(port: Seq<char>) -> Seq<char> {
    "KIT_PORT must be a port number (got `"@ + port + "`)"@
}

impl Kit {
    /// The configuration the environment gives, over the kit checkout
    /// `root`: each unset or empty setting takes its default, and the port
    /// must parse as a `u16`.
    pub fn from_settings(
        root: String,
        home: Option<String>,
        registry_dir: Option<String>,
        port: Option<String>,
        bind: Option<String>,
    ) -> (r: Result<Kit, String>)
        ensures
            ({
                let port_text = setting_or(crate::http::view_opt(port), "8391"@);
                match r {
                    Ok(kit) => parse_unsigned(port_text, 65535) == Some(kit.port as nat)
                        && kit.root@ == root@ && kit.home@ == setting_or(
                        crate::http::view_opt(home),
                        join_path(root@, "data"@),
                    ) && kit.registry_dir@ == setting_or(
                        crate::http::view_opt(registry_dir),
                        join_path(join_path(root@, ".."@), "unidpp-registry"@),
                    ) && kit.bind@ == setting_or(crate::http::view_opt(bind), "127.0.0.1"@),
                    Err(e) => parse_unsigned(port_text, 65535) is None && e@ == bad_port_message(
                        port_text,
                    ),
                }
            }),
    {
        let port_text = setting_or_exec(port, "8391".to_owned());
        let port = match parse_unsigned_bounded(port_text.as_str(), 65535) {
            Some(p) => p as u16,
            None => {
                return Err(crate::text::concat3(
                    "KIT_PORT must be a port number (got `",
                    port_text.as_str(),
                    "`)",
                ));
            },
        };
        let home_default = join_path_exec(root.as_str(), "data");
        let up = join_path_exec(root.as_str(), "..");
        let registry_default = join_path_exec(up.as_str(), "unidpp-registry");
        Ok(
            Kit {
                home: setting_or_exec(home, home_default),
                registry_dir: setting_or_exec(registry_dir, registry_default),
                port,
                bind: setting_or_exec(bind, "127.0.0.1".to_owned()),
                root,
            },
        )
    }

    /// The registry binary inside the source checkout.
    pub fn bin(&self) -> (r: String)
        ensures
            r@ == join_path(self.registry_dir@, "target/release/unidpp-registry"@),
    {
        join_path_exec(self.registry_dir.as_str(), "target/release/unidpp-registry")
    }

    /// The append-only journal.
    pub fn journal(&self) -> (r: String)
        ensures
            r@ == join_path(self.home@, "jurisdiction-journal.jsonl"@),
    {
        join_path_exec(self.home.as_str(), "jurisdiction-journal.jsonl")
    }

    /// The registry's log file.
    pub fn log(&self) -> (r: String)
        ensures
            r@ == join_path(self.home@, "registry.log"@),
    {
        join_path_exec(self.home.as_str(), "registry.log")
    }

    /// The pid file of a daemonized registry.
    pub fn pid_file(&self) -> (r: String)
        ensures
            r@ == join_path(self.home@, "registry.pid"@),
    {
        join_path_exec(self.home.as_str(), "registry.pid")
    }

    /// The admin token file.
    pub fn token_file(&self) -> (r: String)
        ensures
            r@ == join_path(self.home@, "admin-token"@),
    {
        join_path_exec(self.home.as_str(), "admin-token")
    }

    /// The registry's URL.
    pub fn url(&self) -> (r: String)
        ensures
            r@ == "http://"@ + self.bind@ + ":"@ + decimal(self.port as nat),
    {
        let mut r = crate::text::concat3("http://", self.bind.as_str(), ":");
        push_decimal(&mut r, self.port as u64);
        r
    }

    /// The runtime state directory.
    pub fn home(&self) -> (r: &str)
        ensures
            r@ == self.home@,
    {
        self.home.as_str()
    }

    /// The kit checkout.
    pub fn root(&self) -> (r: &str)
        ensures
            r@ == self.root@,
    {
        self.root.as_str()
    }

    /// The listen port.
    pub fn port(&self) -> (r: u16)
        ensures
            r == self.port,
    {
        self.port
    }
}

// ---------------------------------------------------------------------------
// Health, journal, executables
// ---------------------------------------------------------------------------

/// A health probe succeeds when the peer answered with a status below 400
/// (`curl -sf`).
pub fn healthz(reply: &Option<HttpText>) -> (r: bool)
    ensures
        r == (match reply {
            Some(h) => h.status < 400,
            None => false,
        }),
{
    match reply {
        Some(h) => h.status < 400,
        None => false,
    }
}

/// The number of times byte `b` occurs.
pub open spec fn count_byte(s: Seq<u8>, b: u8) -> nat
    decreases s.len(),
{
    if s.len() == 0 {
        0
    } else {
        count_byte(s.drop_last(), b) + if s.last() == b {
            1nat
        } else {
            0nat
        }
    }
}

/// The number of records in the journal: its newline count.
pub fn journal_records(bytes: &[u8]) -> (r: usize)
    ensures
        r == count_byte(bytes@, 10),
{
    let mut count: usize = 0;
    let mut i: usize = 0;
    while i < bytes.len()
        invariant
            i <= bytes@.len(),
            count == count_byte(bytes@.take(i as int), 10),
            count <= i,
        decreases bytes@.len() - i,
    {
        assert(bytes@.take(i + 1).drop_last() =~= bytes@.take(i as int));
        if bytes[i] == 10 {
            count = count + 1;
        }
        i = i + 1;
    }
    assert(bytes@.take(bytes@.len() as int) =~= bytes@);
    count
}

/// A file is executable when it is a regular file with an execute bit set
/// for its owner, group or others.
pub fn is_executable(is_file: bool, mode: u32) -> (r: bool)
    ensures
        r == (is_file && (mode & 0o111) != 0),
{
    is_file && (mode & 0o111) != 0
}


// ---------------------------------------------------------------------------
// The admin token and the sibling binary
// ---------------------------------------------------------------------------

/// The text a fresh token file holds: the hexadecimal of the random bytes
/// and a newline.
pub fn new_token_text(bytes: &[u8]) -> (r: String)
    ensures
        r@ == crate::text::hex_spec(bytes@) + "\n"@,
{
    let mut r = crate::seeding::hex(bytes);
    r.append("\n");
    r
}

/// The token a token file holds: its text trimmed; an empty one means no
/// token could be created at that path.
pub fn stored_token(text: &str, path: &str) -> (r: Result<String, String>)
    ensures
        crate::text::trim_spec(text@).len() > 0 ==> (r matches Ok(t) && t@ == crate::text::trim_spec(
            text@,
        )),
        crate::text::trim_spec(text@).len() == 0 ==> (r matches Err(e) && e@
            == "cannot create admin token at "@ + path@),
{
    let t = crate::text::trim(text);
    if t.as_str().is_empty() {
        Err(crate::text::concat2("cannot create admin token at ", path))
    } else {
        Ok(t)
    }
}

/// The sibling binary is built when it is not there (not executable) or a
/// rebuild is forced (`KIT_FORCE_BUILD=1`).
pub fn needs_build(executable: bool, force: Option<&str>) -> (r: bool)
    ensures
        r == !(executable && match force {
            Some(f) => f@ != "1"@,
            None => true,
        }),
{
    let forced = match force {
        Some(f) => str_eq(f, "1"),
        None => false,
    };
    !(executable && !forced)
}

/// The listen address handed to the registry: `<bind>:<port>`.
pub fn listen_address(kit: &Kit) -> (r: String)
    ensures
        r@ == kit.bind@ + ":"@ + decimal(kit.port as nat),
{
    let mut r = crate::text::concat2(kit.bind.as_str(), ":");
    push_decimal(&mut r, kit.port as u64);
    r
}

/// How many units a `/units` answer lists (none when there is no readable
/// answer): the base dataset is seeded only into a registry without units.
pub fn listed_unit_count(doc: &Option<crate::json::Json>) -> (r: usize)
    ensures
        r == match doc {
            Some(d) => match crate::json::field(d@, "items"@) {
                Some(crate::json::JsonValue::Array(items)) => items.len(),
                _ => 0,
            },
            None => 0,
        },
{
    match doc {
        Some(d) => match d.get("items") {
            Some(i) => match i.as_array() {
                Some(a) => a.len(),
                None => 0,
            },
            None => 0,
        },
        None => 0,
    }
}

/// The base dataset step of a start: `Some` with the note that the
/// dataset is already there (a replayed journal) when the registry lists
/// units, `None` when the dataset is to be seeded.
pub fn base_dataset_note(units: usize) -> (r: Option<String>)
    ensures
        r is Some <==> units != 0,
        r matches Some(line) ==> line@ == "==> base discovery dataset already present (journal replay; "@
            + decimal(units as nat) + " units)"@,
{
    if units == 0 {
        return None;
    }
    let mut line = "==> base discovery dataset already present (journal replay; ".to_owned();
    push_decimal(&mut line, units as u64);
    line.append(" units)");
    Some(line)
}

/// Where the admin token of a start comes from.
pub enum TokenPlan {
    /// `KIT_ADMIN_TOKEN`, as set.
    Environment(String),
    /// The token file, which first gets a newly generated token.
    Generate,
    /// The token file as it is.
    Stored,
}

/// The admin token plan: the environment's token when it is set and not
/// empty; otherwise the token file, after generating one when the file is
/// missing or empty. `env` is `KIT_ADMIN_TOKEN`, `None` when unset.
pub fn admin_token_plan(env: Option<String>, file_has_content: bool) -> (r: TokenPlan)
    ensures
        match env {
            Some(t) if t@.len() > 0 => r matches TokenPlan::Environment(x) && x@ == t@,
            _ => if file_has_content {
                r is Stored
            } else {
                r is Generate
            },
        },
{
    match env {
        Some(t) if !t.as_str().is_empty() => TokenPlan::Environment(t),
        _ => if file_has_content {
            TokenPlan::Stored
        } else {
            TokenPlan::Generate
        },
    }
}

/// How many probes a start waits for the registry to become healthy.
pub const HEALTH_PROBES: u32 = 120;

/// How many probes a start waits for the quick tunnel's public URL.
pub const TUNNEL_PROBES: u32 = 40;

/// The pause between two probes, in milliseconds.
pub const PROBE_PAUSE_MS: u64 = 500;

/// What a poll does after a probe.
pub enum PollStep {
    /// The probe succeeded: stop.
    Done,
    /// Pause, then probe again.
    PauseAndProbe,
    /// Pause, then give up: the budget is spent.
    PauseAndGiveUp,
}

/// The poll's decision after its `probe`-th probe (counting from 1) out of
/// `budget`: stop when the probe succeeded, otherwise pause and probe again
/// while the budget lasts, or pause and give up.
pub fn poll_step(probe: u32, budget: u32, ready: bool) -> (r: PollStep)
    ensures
        ready ==> r is Done,
        !ready && probe < budget ==> r is PauseAndProbe,
        !ready && probe >= budget ==> r is PauseAndGiveUp,
{
    if ready {
        PollStep::Done
    } else if probe < budget {
        PollStep::PauseAndProbe
    } else {
        PollStep::PauseAndGiveUp
    }
}

/// One probe for the quick tunnel's public URL: the URL in the tunnel's
/// log (when the log could be read) while the tunnel process is alive.
pub fn tunnel_probe(log: Option<&str>, alive: bool) -> (r: Option<String>)
    ensures
        match log {
            Some(text) => match tunnel_url_from(text@, 0) {
                Some(u) => if alive {
                    r matches Some(x) && x@ == u
                } else {
                    r is None
                },
                None => r is None,
            },
            None => r is None,
        },
{
    match log {
        Some(text) => match quick_tunnel_url(text) {
            Some(u) => if alive {
                Some(u)
            } else {
                None
            },
            None => None,
        },
        None => None,
    }
}

/// The number of registered services a `/services` answer reports.
pub fn services_count(doc: &crate::json::Json) -> (r: Option<u64>)
    ensures
        match r {
            Some(n) => crate::json::field(doc@, "count"@) == Some(crate::json::JsonValue::Num(n as int)),
            None => !(crate::json::field(doc@, "count"@) matches Some(crate::json::JsonValue::Num(
                n,
            )) && 0 <= n <= u64::MAX),
        },
{
    match doc.get("count") {
        Some(c) => c.as_u64(),
        None => None,
    }
}

// ---------------------------------------------------------------------------
// The log's last lines
// ---------------------------------------------------------------------------

/// The length of the first line of `s` (up to its first newline).
pub open spec fn line_len(s: Seq<char>) -> nat
    decreases s.len(),
{
    if s.len() > 0 && s[0] != '\n' {
        1 + line_len(s.drop_first())
    } else {
        0
    }
}

proof fn lemma_line_len(s: Seq<char>)
    ensures
        line_len(s) <= s.len(),
        line_len(s) < s.len() ==> s[line_len(s) as int] == '\n',
        forall|k: int| 0 <= k < line_len(s) ==> s[k] != '\n',
    decreases s.len(),
{
    if s.len() > 0 && s[0] != '\n' {
        lemma_line_len(s.drop_first());
        assert forall|k: int| 0 <= k < line_len(s) implies s[k] != '\n' by {
            if k > 0 {
                assert(s[k] == s.drop_first()[k - 1]);
            }
        }
    }
}

/// A line without its trailing carriage return.
pub open spec fn without_cr(line: Seq<char>) -> Seq<char> {
    if line.len() > 0 && line.last() == '\r' {
        line.drop_last()
    } else {
        line
    }
}

/// The lines of a text (`str::lines`): split at each newline, a final
/// newline ending the last line rather than starting an empty one, and a
/// carriage return before a newline dropped.
pub open spec fn text_lines(s: Seq<char>) -> Seq<Seq<char>>
    decreases s.len(),
{
    if s.len() == 0 {
        Seq::empty()
    } else {
        let n = line_len(s);
        if n < s.len() {
            seq![without_cr(s.take(n as int))] + text_lines(s.skip((n + 1) as int))
        } else {
            seq![without_cr(s)]
        }
    }
}

/// The last `n` lines of a text (all of them when it has fewer).
pub open spec fn last_lines_spec(s: Seq<char>, n: nat) -> Seq<Seq<char>> {
    let lines = text_lines(s);
    if n < lines.len() {
        lines.skip(lines.len() - n)
    } else {
        lines
    }
}

fn line_text(cs: &Vec<char>, from: usize, to: usize) -> (r: String)
    requires
        from <= to <= cs@.len(),
    ensures
        r@ == without_cr(cs@.subrange(from as int, to as int)),
{
    let mut end = to;
    if end > from && cs[end - 1] == '\r' {
        end = end - 1;
    }
    let mut r = String::new();
    let mut k: usize = from;
    while k < end
        invariant
            from <= k <= end <= to <= cs@.len(),
            r@ == cs@.subrange(from as int, k as int),
        decreases end - k,
    {
        crate::text::push_char(&mut r, cs[k]);
        assert(cs@.subrange(from as int, k + 1) =~= cs@.subrange(from as int, k as int).push(
            cs@[k as int],
        ));
        k = k + 1;
    }
    if to > from {
        assert(cs@.subrange(from as int, to as int).drop_last() =~= cs@.subrange(
            from as int,
            to - 1,
        ));
    }
    r
}

/// The lines of a text.
pub fn lines(text: &str) -> (r: Vec<String>)
    ensures
        crate::tally::strings_view(r@) == text_lines(text@),
{
    let cs = chars_of(text);
    let ghost s = cs@;
    let n = cs.len();
    let mut r: Vec<String> = Vec::new();
    let mut at: usize = 0;
    assert(s.skip(0) =~= s);
    while at < n
        invariant
            at <= n,
            n == s.len(),
            s == cs@,
            s == text@,
            text_lines(s) == crate::tally::strings_view(r@) + text_lines(s.skip(at as int)),
        decreases n - at,
    {
        let ghost rest = s.skip(at as int);
        let mut end = at;
        while end < n && cs[end] != '\n'
            invariant
                at <= end <= n,
                n == s.len(),
                s == cs@,
                rest == s.skip(at as int),
                line_len(rest) == (end - at) + line_len(s.skip(end as int)),
            decreases n - end,
        {
            assert(s.skip(end as int).drop_first() =~= s.skip(end + 1));
            end = end + 1;
        }
        proof {
            lemma_line_len(rest);
            assert(rest.take(line_len(rest) as int) =~= s.subrange(at as int, end as int));
        }
        let line = line_text(&cs, at, end);
        let ghost before = crate::tally::strings_view(r@);
        r.push(line);
        assert(crate::tally::strings_view(r@) =~= before.push(line@));
        if end < n {
            assert(rest.skip((line_len(rest) + 1) as int) =~= s.skip(end + 1));
            assert(before.push(line@) + text_lines(s.skip(end + 1)) =~= before + (seq![line@]
                + text_lines(s.skip(end + 1))));
            at = end + 1;
        } else {
            assert(rest =~= s.subrange(at as int, end as int));
            assert(s.skip(n as int) =~= Seq::<char>::empty());
            assert(before.push(line@) =~= before + seq![line@]);
            at = n;
        }
    }
    assert(s.skip(n as int) =~= Seq::<char>::empty());
    assert(crate::tally::strings_view(r@) + text_lines(Seq::<char>::empty()) =~= crate::tally::strings_view(r@));
    r
}

/// The last `n` lines of a text (`tail`).
pub fn last_lines(text: &str, n: usize) -> (r: Vec<String>)
    ensures
        crate::tally::strings_view(r@) == last_lines_spec(text@, n as nat),
{
    let all = lines(text);
    let ghost lv = crate::tally::strings_view(all@);
    let start = if n < all.len() {
        all.len() - n
    } else {
        0
    };
    let mut r: Vec<String> = Vec::new();
    let mut k: usize = start;
    while k < all.len()
        invariant
            start <= k <= all@.len(),
            lv == crate::tally::strings_view(all@),
            crate::tally::strings_view(r@) == lv.subrange(start as int, k as int),
        decreases all@.len() - k,
    {
        let ghost before = crate::tally::strings_view(r@);
        r.push(all[k].clone());
        assert(crate::tally::strings_view(r@) =~= before.push(lv[k as int]));
        assert(lv.subrange(start as int, k + 1) =~= lv.subrange(start as int, k as int).push(
            lv[k as int],
        ));
        k = k + 1;
    }
    assert(lv.subrange(start as int, all@.len() as int) =~= last_lines_spec(text@, n as nat));
    r
}

// ---------------------------------------------------------------------------
// The quick tunnel's announced URL
// ---------------------------------------------------------------------------

/// A character of a quick-tunnel host label: `[a-z0-9-]`.
pub open spec fn is_host_char(c: char) -> bool {
    ('a' <= c && c <= 'z') || ('0' <= c && c <= '9') || c == '-'
}

/// The number of leading host characters.
pub open spec fn host_run(s: Seq<char>) -> nat
    decreases s.len(),
{
    if s.len() > 0 && is_host_char(s[0]) {
        1 + host_run(s.drop_first())
    } else {
        0
    }
}

/// Whether the host run `s[start..end]` is an assigned quick-tunnel host:
/// non-empty, starting with a letter or digit, not cloudflared's own `api`
/// host, and followed by `.trycloudflare.com`.
pub open spec fn tunnel_host(s: Seq<char>, start: int, end: int) -> bool {
    &&& start < end
    &&& ('a' <= s[start] && s[start] <= 'z') || ('0' <= s[start] && s[start] <= '9')
    &&& s.subrange(start, end) != "api"@
    &&& starts_with(s.skip(end), ".trycloudflare.com"@)
}

/// The first `https://<host>.trycloudflare.com` in the text at or after
/// `from`, scanning each `https://` in turn.
pub open spec fn tunnel_url_from(s: Seq<char>, from: int) -> Option<Seq<char>>
    decreases s.len() - from,
{
    if from < 0 || from > s.len() {
        None
    } else {
        match first_occurrence(s.skip(from), "https://"@) {
            None => None,
            Some(f) => {
                let start = from + f + 8;
                if f < 0 || start > s.len() {
                    None
                } else {
                    let end = start + host_run(s.skip(start));
                    if tunnel_host(s, start, end) {
                        Some("https://"@ + s.subrange(start, end) + ".trycloudflare.com"@)
                    } else {
                        tunnel_url_from(s, start)
                    }
                }
            },
        }
    }
}

/// The public URL a quick tunnel announced in its log, if any: the first
/// `https://` followed by a host label and `.trycloudflare.com`, other than
/// cloudflared's own `api` host.
pub fn quick_tunnel_url(text: &str) -> (r: Option<String>)
    ensures
        crate::http::view_opt(r) == tunnel_url_from(text@, 0),
{
    let s = chars_of(text);
    let scheme = pattern("https://");
    let suffix = pattern(".trycloudflare.com");
    proof {
        reveal_strlit("https://");
    }
    let n = s.len();
    let mut from: usize = 0;
    loop
        invariant
            from <= n,
            n == s@.len(),
            s@ == text@,
            scheme@ == "https://"@,
            scheme@.len() == 8,
            suffix@ == ".trycloudflare.com"@,
            tunnel_url_from(text@, 0) == tunnel_url_from(s@, from as int),
        decreases n - from,
    {
        let i = match find_in_suffix(&s, &scheme, from) {
            None => {
                return None;
            },
            Some(i) => i,
        };
        let start = i + 8;
        let mut end: usize = start;
        assert(s@.skip(start as int).skip(0) =~= s@.skip(start as int));
        while end < n && (('a' <= s[end] && s[end] <= 'z') || ('0' <= s[end] && s[end] <= '9')
            || s[end] == '-')
            invariant
                start <= end <= n,
                n == s@.len(),
                host_run(s@.skip(start as int)) == (end - start) + host_run(s@.skip(end as int)),
            decreases n - end,
        {
            assert(s@.skip(end as int).drop_first() =~= s@.skip(end + 1));
            end = end + 1;
        }
        assert(host_run(s@.skip(end as int)) == 0);
        let mut host_chars: Vec<char> = Vec::new();
        let mut x: usize = start;
        while x < end
            invariant
                start <= x <= end <= n,
                n == s@.len(),
                host_chars@ == s@.subrange(start as int, x as int),
            decreases end - x,
        {
            host_chars.push(s[x]);
            x = x + 1;
            assert(host_chars@ =~= s@.subrange(start as int, x as int));
        }
        let host = string_of_chars(&host_chars);
        let first_ok = end > start && (('a' <= s[start] && s[start] <= 'z') || ('0' <= s[start]
            && s[start] <= '9'));
        if first_ok && !str_eq(host.as_str(), "api") && starts_with_at(&s, &suffix, end) {
            let mut url = crate::text::concat2("https://", host.as_str());
            url.append(".trycloudflare.com");
            return Some(url);
        }
        from = start;
    }
}

// ---------------------------------------------------------------------------
// The command line
// ---------------------------------------------------------------------------

/// What the launcher was asked to do.
pub enum Command {
    Start { daemon: bool, tunnel: bool },
    Stop,
    Status,
    Seed,
    Demo { jurisdiction: String },
}

/// The launcher's usage line.
pub open spec fn usage_text() -> Seq<char> {
    "usage: unidpp-kit [start [--daemon] [--tunnel]] | stop | status | seed | demo-jurisdiction [--jurisdiction DE]"@
}

/// The usage line (the error every malformed command line ends in).
pub fn usage() -> (r: String)
    ensures
        r@ == usage_text(),
{
    "usage: unidpp-kit [start [--daemon] [--tunnel]] | stop | status | seed | demo-jurisdiction [--jurisdiction DE]".to_owned()
}

/// The `start` options from the front: `--daemon` and `--tunnel` set their
/// flag; anything else is refused.
pub open spec fn start_options(rest: Seq<Seq<char>>, daemon: bool, tunnel: bool) -> Result<
    (bool, bool),
    Seq<char>,
>
    decreases rest.len(),
{
    if rest.len() == 0 {
        Ok((daemon, tunnel))
    } else if rest[0] == "--daemon"@ {
        start_options(rest.drop_first(), true, tunnel)
    } else if rest[0] == "--tunnel"@ {
        start_options(rest.drop_first(), daemon, true)
    } else {
        Err("unknown option: "@ + rest[0] + " (expected --daemon, --tunnel)"@)
    }
}

/// The demonstration's options from the front: `--jurisdiction CODE`.
pub open spec fn demo_options(rest: Seq<Seq<char>>, jurisdiction: Seq<char>) -> Result<
    Seq<char>,
    Seq<char>,
>
    decreases rest.len(),
{
    if rest.len() == 0 {
        Ok(jurisdiction)
    } else if rest[0] == "--jurisdiction"@ {
        if rest.len() < 2 {
            Err(usage_text())
        } else {
            demo_options(rest.skip(2), rest[1])
        }
    } else {
        Err("unknown option: "@ + rest[0] + " (expected --jurisdiction)"@)
    }
}

/// The launcher's command line (without the program name).
pub open spec fn command_of(args: Seq<Seq<char>>) -> Result<CommandView, Seq<char>> {
    if args.len() == 0 {
        Ok(CommandView::Start { daemon: false, tunnel: false })
    } else if args[0] == "start"@ {
        match start_options(args.drop_first(), false, false) {
            Ok((d, t)) => Ok(CommandView::Start { daemon: d, tunnel: t }),
            Err(e) => Err(e),
        }
    } else if args[0] == "stop"@ {
        Ok(CommandView::Stop)
    } else if args[0] == "status"@ {
        Ok(CommandView::Status)
    } else if args[0] == "seed"@ {
        Ok(CommandView::Seed)
    } else if args[0] == "demo-jurisdiction"@ || args[0] == "demo"@ {
        match demo_options(args.drop_first(), "DE"@) {
            Ok(j) => Ok(CommandView::Demo { jurisdiction: j }),
            Err(e) => Err(e),
        }
    } else {
        Err(usage_text())
    }
}

/// A command as mathematics.
pub enum CommandView {
    Start { daemon: bool, tunnel: bool },
    Stop,
    Status,
    Seed,
    Demo { jurisdiction: Seq<char> },
}

impl Command {
    pub open spec fn view(&self) -> CommandView {
        match self {
            Command::Start { daemon, tunnel } => CommandView::Start { daemon: *daemon, tunnel: *tunnel },
            Command::Stop => CommandView::Stop,
            Command::Status => CommandView::Status,
            Command::Seed => CommandView::Seed,
            Command::Demo { jurisdiction } => CommandView::Demo { jurisdiction: jurisdiction@ },
        }
    }
}

/// The views of a list of arguments.
pub open spec fn args_view(args: Seq<String>) -> Seq<Seq<char>> {
    args.map_values(|a: String| a@)
}

/// Reads the launcher's command line; an `Err` carries the message the
/// launcher exits with.
#[verifier::loop_isolation(false)]
pub fn parse_command(args: &Vec<String>) -> (r: Result<Command, String>)
    ensures
        match r {
            Ok(c) => command_of(args_view(args@)) == Ok::<CommandView, Seq<char>>(c@),
            Err(e) => command_of(args_view(args@)) == Err::<CommandView, Seq<char>>(e@),
        },
{
    let ghost av = args_view(args@);
    if args.len() == 0 {
        return Ok(Command::Start { daemon: false, tunnel: false });
    }
    let first = args[0].as_str();
    assert(av[0] == args@[0]@);
    if str_eq(first, "start") {
        let mut daemon = false;
        let mut tunnel = false;
        let mut i: usize = 1;
        assert(av.skip(1) =~= av.drop_first());
        while i < args.len()
            invariant
                1 <= i <= args@.len(),
                av == args_view(args@),
                av[0] == "start"@,
                start_options(av.drop_first(), false, false) == start_options(
                    av.skip(i as int),
                    daemon,
                    tunnel,
                ),
            decreases args@.len() - i,
        {
            let arg = args[i].as_str();
            assert(av.skip(i as int)[0] == arg@);
            assert(av.skip(i as int).drop_first() =~= av.skip(i + 1));
            if str_eq(arg, "--daemon") {
                daemon = true;
            } else if str_eq(arg, "--tunnel") {
                tunnel = true;
            } else {
                let mut e = crate::text::concat2("unknown option: ", arg);
                e.append(" (expected --daemon, --tunnel)");
                return Err(e);
            }
            i = i + 1;
        }
        assert(av.skip(i as int).len() == 0);
        return Ok(Command::Start { daemon, tunnel });
    }
    if str_eq(first, "stop") {
        return Ok(Command::Stop);
    }
    if str_eq(first, "status") {
        return Ok(Command::Status);
    }
    if str_eq(first, "seed") {
        return Ok(Command::Seed);
    }
    if str_eq(first, "demo-jurisdiction") || str_eq(first, "demo") {
        let mut jurisdiction = "DE".to_owned();
        let mut i: usize = 1;
        assert(av.skip(1) =~= av.drop_first());
        while i < args.len()
            invariant
                1 <= i <= args@.len(),
                av == args_view(args@),
                demo_options(av.drop_first(), "DE"@) == demo_options(
                    av.skip(i as int),
                    jurisdiction@,
                ),
            decreases args@.len() - i,
        {
            let arg = args[i].as_str();
            assert(av.skip(i as int)[0] == arg@);
            if str_eq(arg, "--jurisdiction") {
                if i + 1 >= args.len() {
                    return Err(usage());
                }
                assert(av.skip(i as int)[1] == args@[i + 1]@);
                assert(av.skip(i as int).skip(2) =~= av.skip(i + 2));
                jurisdiction = args[i + 1].clone();
                i = i + 2;
            } else {
                let mut e = crate::text::concat2("unknown option: ", arg);
                e.append(" (expected --jurisdiction)");
                return Err(e);
            }
        }
        assert(av.skip(i as int).len() == 0);
        return Ok(Command::Demo { jurisdiction });
    }
    Err(usage())
}

} // verus!
