//! Application configuration: the settings, their defaults, how the values
//! of the environment variables override them, and the addresses built from
//! them.

use vstd::prelude::*;
use crate::text::{
    is_digit, lemma_decimal_digits, chars_of, decimal, parse_unsigned, parse_unsigned_spec, push_char, push_chars,
    push_decimal, starts_with,
};

verus! {

broadcast use vstd::string::group_string_axioms;

/// Settings of the monitor.
#[derive(Debug, Clone)]
pub struct Config {
    pub ollama_host: String,
    pub ollama_port: u16,
    pub server_bind: String,
    pub server_port: u16,
    pub refresh_interval_secs: u64,
    pub gpu_device_index: usize,
}

/// The values of the environment variables that configure the monitor, each
/// `None` where the variable is unset (or not valid Unicode).
#[derive(Debug)]
pub struct ConfigVars {
    /// `OLLAMA_HOST`
    pub ollama_host: Option<String>,
    /// `OLLAMA_PORT`
    pub ollama_port: Option<String>,
    /// `SERVER_BIND`
    pub server_bind: Option<String>,
    /// `SERVER_PORT`
    pub server_port: Option<String>,
    /// `REFRESH_INTERVAL_SECS`
    pub refresh_interval_secs: Option<String>,
    /// `GPU_DEVICE_INDEX`
    pub gpu_device_index: Option<String>,
}

pub open spec fn default_ollama_host() -> Seq<char> {
    "http://127.0.0.1"@
}

pub open spec fn default_server_bind() -> Seq<char> {
    "0.0.0.0"@
}

pub const DEFAULT_OLLAMA_PORT: u16 = 11434;

pub const DEFAULT_SERVER_PORT: u16 = 3000;

pub const DEFAULT_REFRESH_INTERVAL_SECS: u64 = 15;

pub const DEFAULT_GPU_DEVICE_INDEX: usize = 0;

impl Config {
    /// Whether this is the configuration used when no variable is set.
    pub open spec fn is_default(&self) -> bool {
        &&& self.ollama_host@ == default_ollama_host()
        &&& self.ollama_port == DEFAULT_OLLAMA_PORT
        &&& self.server_bind@ == default_server_bind()
        &&& self.server_port == DEFAULT_SERVER_PORT
        &&& self.refresh_interval_secs == DEFAULT_REFRESH_INTERVAL_SECS
        &&& self.gpu_device_index == DEFAULT_GPU_DEVICE_INDEX
    }
}

impl Default for Config {
    fn default() -> (res: Config)
        ensures
            res.is_default(),
    {
        Config {
            ollama_host: String::from_str("http://127.0.0.1"),
            ollama_port: DEFAULT_OLLAMA_PORT,
            server_bind: String::from_str("0.0.0.0"),
            server_port: DEFAULT_SERVER_PORT,
            refresh_interval_secs: DEFAULT_REFRESH_INTERVAL_SECS,
            gpu_device_index: DEFAULT_GPU_DEVICE_INDEX,
        }
    }
}

/// The text setting: the variable's value where it is set, else the default.
pub open spec fn text_setting(var: Option<String>, default: Seq<char>) -> Seq<char> {
    match var {
        Some(v) => v@,
        None => default,
    }
}

/// A numeric setting: the variable's value where it is set and reads as a
/// number no larger than `max`, else the default.
pub open spec fn number_setting(var: Option<String>, max: nat, default: nat) -> nat {
    match var {
        Some(v) => match parse_unsigned_spec(v@, max) {
            Some(n) => n,
            None => default,
        },
        None => default,
    }
}

fn read_number(var: &Option<String>, max: u64, default: u64) -> (res: u64)
    requires
        default <= max,
    ensures
        res as nat == number_setting(*var, max as nat, default as nat),
        res <= max,
{
    match var {
        Some(v) => match parse_unsigned(&chars_of(v.as_str()), max) {
            Some(n) => n,
            None => default,
        },
        None => default,
    }
}

fn read_text(var: &Option<String>, default: &str) -> (res: String)
    ensures
        res@ == text_setting(*var, default@),
{
    match var {
        Some(v) => v.clone(),
        None => String::from_str(default),
    }
}

/// Whether `s` begins with `p`.
pub open spec fn has_prefix(s: Seq<char>, p: Seq<char>) -> bool {
    p.len() <= s.len() && s.subrange(0, p.len() as int) == p
}

/// Whether `host` names its scheme.
pub open spec fn has_scheme(host: Seq<char>) -> bool {
    has_prefix(host, "http://"@) || has_prefix(host, "https://"@)
}

/// What follows the scheme in `host`.
pub open spec fn after_scheme(host: Seq<char>) -> Seq<char> {
    if has_prefix(host, "http://"@) {
        host.skip("http://"@.len() as int)
    } else if has_prefix(host, "https://"@) {
        host.skip("https://"@.len() as int)
    } else {
        host
    }
}

/// Whether `host` names a port: after its scheme it holds a `:` that no `]`
/// follows (the colons of a bracketed IPv6 address do not count).
pub open spec fn names_port(host: Seq<char>) -> bool {
    let a = after_scheme(host);
    exists|i: int|
        0 <= i < a.len() && a[i] == ':' && forall|j: int| i < j < a.len() ==> a[j] != ']'
}

/// The base URL of the Ollama server: the host, with `http://` in front of it
/// where it names no scheme, and `:` and the port after it where it names no
/// port.
pub open spec fn base_url(host: Seq<char>, port: u16) -> Seq<char> {
    (if has_scheme(host) {
        host
    } else {
        "http://"@ + host
    }) + (if names_port(host) {
        Seq::empty()
    } else {
        seq![':'] + decimal(port as nat)
    })
}

/// Where the text that follows the scheme begins.
fn scheme_end(host: &Vec<char>) -> (res: usize)
    ensures
        res <= host@.len(),
        host@.skip(res as int) == after_scheme(host@),
        (res > 0) == has_scheme(host@),
{
    let http = chars_of("http://");
    let https = chars_of("https://");
    proof {
        reveal_strlit("http://");
        reveal_strlit("https://");
    }
    if starts_with(host, &http) {
        http.len()
    } else if starts_with(host, &https) {
        https.len()
    } else {
        assert(host@.skip(0) =~= host@);
        0
    }
}

/// Whether the text of `host` after position `from` holds a `:` that no `]`
/// follows.
fn port_named_after(host: &Vec<char>, from: usize) -> (res: bool)
    requires
        from <= host@.len(),
    ensures
        res == (exists|i: int|
            0 <= i < host@.skip(from as int).len() && host@.skip(from as int)[i] == ':'
                && forall|j: int|
                i < j < host@.skip(from as int).len() ==> host@.skip(from as int)[j] != ']'),
{
    let ghost a = host@.skip(from as int);
    let mut k: usize = host.len();
    while k > from
        invariant
            from <= k <= host@.len(),
            a == host@.skip(from as int),
            forall|j: int| k - from <= j < a.len() ==> a[j] != ']' && a[j] != ':',
        decreases k,
    {
        let c = host[k - 1];
        assert(a[k - 1 - from] == c);
        if c == ':' {
            assert(forall|j: int| k - 1 - from < j < a.len() ==> a[j] != ']');
            return true;
        }
        if c == ']' {
            assert forall|i: int|
                0 <= i < a.len() && a[i] == ':' implies !(forall|j: int|
                i < j < a.len() ==> a[j] != ']') by {
                assert(i < k - 1 - from);
                assert(a[k - 1 - from] == ']');
            }
            return false;
        }
        k = k - 1;
    }
    false
}

impl Config {
    /// Whether these are the settings that the environment variables `vars`
    /// give: each variable that is set overrides its default; a numeric
    /// variable whose value does not read as a number of its setting's type
    /// leaves the default in place.
    pub open spec fn loaded_from(&self, vars: ConfigVars) -> bool {
        &&& self.ollama_host@ == text_setting(vars.ollama_host, default_ollama_host())
        &&& self.ollama_port as nat == number_setting(
            vars.ollama_port,
            u16::MAX as nat,
            DEFAULT_OLLAMA_PORT as nat,
        )
        &&& self.server_bind@ == text_setting(vars.server_bind, default_server_bind())
        &&& self.server_port as nat == number_setting(
            vars.server_port,
            u16::MAX as nat,
            DEFAULT_SERVER_PORT as nat,
        )
        &&& self.refresh_interval_secs as nat == number_setting(
            vars.refresh_interval_secs,
            u64::MAX as nat,
            DEFAULT_REFRESH_INTERVAL_SECS as nat,
        )
        &&& self.gpu_device_index as nat == number_setting(
            vars.gpu_device_index,
            usize::MAX as nat,
            DEFAULT_GPU_DEVICE_INDEX as nat,
        )
    }

    /// The settings that the environment variables `vars` give.
    pub fn load(vars: &ConfigVars) -> (res: Config)
        ensures
            res.loaded_from(*vars),
    {
        let ollama_port: u64 = read_number(&vars.ollama_port, u16::MAX as u64, DEFAULT_OLLAMA_PORT as u64);
        let server_port: u64 = read_number(&vars.server_port, u16::MAX as u64, DEFAULT_SERVER_PORT as u64);
        let refresh: u64 = read_number(
            &vars.refresh_interval_secs,
            u64::MAX,
            DEFAULT_REFRESH_INTERVAL_SECS,
        );
        let gpu: u64 = read_number(
            &vars.gpu_device_index,
            usize::MAX as u64,
            DEFAULT_GPU_DEVICE_INDEX as u64,
        );
        Config {
            ollama_host: read_text(&vars.ollama_host, "http://127.0.0.1"),
            ollama_port: ollama_port as u16,
            server_bind: read_text(&vars.server_bind, "0.0.0.0"),
            server_port: server_port as u16,
            refresh_interval_secs: refresh,
            gpu_device_index: gpu as usize,
        }
    }

    /// The base URL of the Ollama server (see `base_url`).
    pub fn ollama_base_url(&self) -> (res: String)
        ensures
            res@ == base_url(self.ollama_host@, self.ollama_port),
    {
        let host = chars_of(self.ollama_host.as_str());
        let from: usize = scheme_end(&host);
        let mut res = String::new();
        if from == 0 {
            let http = chars_of("http://");
            push_chars(&mut res, &http);
        }
        push_chars(&mut res, &host);
        if !port_named_after(&host, from) {
            push_char(&mut res, ':');
            push_decimal(&mut res, self.ollama_port as u64);
        }
        proof {
            let h = self.ollama_host@;
            let tail = if names_port(h) {
                Seq::empty()
            } else {
                seq![':'] + decimal(self.ollama_port as nat)
            };
            if has_scheme(h) {
                assert(base_url(h, self.ollama_port) == h + tail);
            } else {
                assert(base_url(h, self.ollama_port) == "http://"@ + h + tail);
            }
            assert(res@ =~= base_url(h, self.ollama_port));
        }
        res
    }

    /// The address the API server listens on: the bind address, `:` and the
    /// port.
    pub fn listen_addr(&self) -> (res: String)
        ensures
            res@ == self.server_bind@ + seq![':'] + decimal(self.server_port as nat),
    {
        let mut res = String::new();
        push_chars(&mut res, &chars_of(self.server_bind.as_str()));
        push_char(&mut res, ':');
        push_decimal(&mut res, self.server_port as u64);
        assert(res@ =~= self.server_bind@ + seq![':'] + decimal(self.server_port as nat));
        res
    }
}

/// The configuration that points the monitor at an Ollama server whose full
/// URL is `ollama_url`, with the API server on `127.0.0.1` at a port the
/// system picks, a one-second refresh and GPU 0.
pub fn cfg_for_ollama(ollama_url: &str) -> (res: Config)
    ensures
        res.ollama_host@ == ollama_url@,
        res.ollama_port == 0,
        res.server_bind@ == "127.0.0.1"@,
        res.server_port == 0,
        res.refresh_interval_secs == 1,
        res.gpu_device_index == 0,
{
    Config {
        ollama_host: String::from_str(ollama_url),
        ollama_port: 0,
        server_bind: String::from_str("127.0.0.1"),
        server_port: 0,
        refresh_interval_secs: 1,
        gpu_device_index: 0,
    }
}

/// With no variable set, the settings are the defaults.
pub proof fn lemma_load_without_vars_is_default(vars: ConfigVars, res: Config)
    requires
        vars.ollama_host is None,
        vars.ollama_port is None,
        vars.server_bind is None,
        vars.server_port is None,
        vars.refresh_interval_secs is None,
        vars.gpu_device_index is None,
        res.loaded_from(vars),
    ensures
        res.is_default(),
{
}

/// Prefixes of a text whose length they do not exceed are not changed by
/// what is appended to it.
proof fn lemma_prefix_of_extended(h: Seq<char>, t: Seq<char>, p: Seq<char>)
    requires
        p.len() <= h.len(),
    ensures
        has_prefix(h + t, p) == has_prefix(h, p),
{
    assert((h + t).subrange(0, p.len() as int) =~= h.subrange(0, p.len() as int));
}

/// What follows the scheme of a base URL is what followed the scheme of the
/// host, with the port text, if one was added, after it.
proof fn lemma_after_scheme_of_base_url(h: Seq<char>, tail: Seq<char>)
    ensures
        has_scheme(h) ==> has_scheme(h + tail) && after_scheme(h + tail) == after_scheme(h) + tail,
        !has_scheme(h) ==> has_scheme("http://"@ + h + tail) && after_scheme("http://"@ + h + tail)
            == after_scheme(h) + tail,
{
    reveal_strlit("http://");
    reveal_strlit("https://");
    let http = "http://"@;
    let https = "https://"@;
    if has_scheme(h) {
        if has_prefix(h, http) {
            lemma_prefix_of_extended(h, tail, http);
            assert((h + tail).skip(7) =~= h.skip(7) + tail);
        } else {
            lemma_prefix_of_extended(h, tail, https);
            assert(h.len() >= 8);
            lemma_prefix_of_extended(h, tail, http);
            assert((h + tail).skip(8) =~= h.skip(8) + tail);
        }
    } else {
        let u = http + h + tail;
        assert(u.subrange(0, 7) =~= http);
        assert(u.skip(7) =~= h + tail);
    }
}

/// The base URL is already normal: taking it as the host gives it back.
pub proof fn lemma_base_url_idempotent(host: Seq<char>, port: u16)
    ensures
        base_url(base_url(host, port), port) == base_url(host, port),
{
    let tail = if names_port(host) {
        Seq::<char>::empty()
    } else {
        seq![':'] + decimal(port as nat)
    };
    let u = base_url(host, port);
    lemma_after_scheme_of_base_url(host, tail);
    if has_scheme(host) {
        assert(u == host + tail);
    } else {
        assert(u == "http://"@ + host + tail);
    }
    assert(has_scheme(u));
    let a = after_scheme(host);
    assert(after_scheme(u) == a + tail);
    if names_port(host) {
        assert(a + tail =~= a);
    } else {
        let b = a + tail;
        let i: int = a.len() as int;
        lemma_decimal_digits(port as nat);
        let d = decimal(port as nat);
        assert(b[i] == ':');
        assert forall|j: int| i < j < b.len() implies b[j] != ']' by {
            assert(b[j] == d[j - i - 1]);
            assert(is_digit(d[j - i - 1]));
        }
        assert(names_port(u));
    }
    assert(u + Seq::<char>::empty() =~= u);
}

/// The invalid entry of a numeric variable: its name and value where it is
/// set and does not read as a number no larger than `max`, else nothing.
pub open spec fn invalid_entry(name: Seq<char>, var: Option<String>, max: nat) -> Seq<
    (Seq<char>, Seq<char>),
> {
    match var {
        Some(v) => if parse_unsigned_spec(v@, max) is None {
            seq![(name, v@)]
        } else {
            Seq::empty()
        },
        None => Seq::empty(),
    }
}

/// The numeric variables of `vars` that are set to a value that does not read
/// as a number of their setting's type, by name and value, in the order
/// `OLLAMA_PORT`, `SERVER_PORT`, `REFRESH_INTERVAL_SECS`, `GPU_DEVICE_INDEX`:
/// those for which the default stays in place.
pub open spec fn invalid_settings_of(vars: ConfigVars) -> Seq<(Seq<char>, Seq<char>)> {
    invalid_entry("OLLAMA_PORT"@, vars.ollama_port, u16::MAX as nat) + invalid_entry(
        "SERVER_PORT"@,
        vars.server_port,
        u16::MAX as nat,
    ) + invalid_entry("REFRESH_INTERVAL_SECS"@, vars.refresh_interval_secs, u64::MAX as nat)
        + invalid_entry("GPU_DEVICE_INDEX"@, vars.gpu_device_index, usize::MAX as nat)
}

/// The views of a list of name and value pairs.
pub open spec fn pair_views(v: Seq<(String, String)>) -> Seq<(Seq<char>, Seq<char>)> {
    v.map_values(|p: (String, String)| (p.0@, p.1@))
}

fn note_invalid(out: &mut Vec<(String, String)>, name: &str, var: &Option<String>, max: u64)
    ensures
        pair_views(final(out)@) == pair_views(old(out)@) + invalid_entry(name@, *var, max as nat),
{
    let ghost before = out@;
    if let Some(v) = var {
        if parse_unsigned(&chars_of(v.as_str()), max).is_none() {
            out.push((String::from_str(name), v.clone()));
            assert(pair_views(out@) =~= pair_views(before) + invalid_entry(name@, *var, max as nat));
            return;
        }
    }
    assert(pair_views(out@) =~= pair_views(before) + invalid_entry(name@, *var, max as nat));
}

/// The numeric variables of `vars` whose values are invalid, each with its
/// name and value (see `invalid_settings_of`), so that each can be reported.
pub fn invalid_settings(vars: &ConfigVars) -> (res: Vec<(String, String)>)
    ensures
        pair_views(res@) == invalid_settings_of(*vars),
{
    let mut out: Vec<(String, String)> = Vec::new();
    note_invalid(&mut out, "OLLAMA_PORT", &vars.ollama_port, u16::MAX as u64);
    note_invalid(&mut out, "SERVER_PORT", &vars.server_port, u16::MAX as u64);
    note_invalid(&mut out, "REFRESH_INTERVAL_SECS", &vars.refresh_interval_secs, u64::MAX);
    note_invalid(&mut out, "GPU_DEVICE_INDEX", &vars.gpu_device_index, usize::MAX as u64);
    assert(pair_views(Seq::<(String, String)>::empty()) =~= Seq::<(Seq<char>, Seq<char>)>::empty());
    assert(invalid_settings_of(*vars) =~= Seq::<(Seq<char>, Seq<char>)>::empty()
        + invalid_entry("OLLAMA_PORT"@, vars.ollama_port, u16::MAX as nat)
        + invalid_entry("SERVER_PORT"@, vars.server_port, u16::MAX as nat)
        + invalid_entry("REFRESH_INTERVAL_SECS"@, vars.refresh_interval_secs, u64::MAX as nat)
        + invalid_entry("GPU_DEVICE_INDEX"@, vars.gpu_device_index, usize::MAX as nat));
    out
}

/// A numeric variable that is reported as invalid leaves its setting at the
/// default: for settings loaded from `vars`, each of the four numeric
/// variables with an entry in `invalid_settings_of` has its default value.
pub proof fn lemma_reported_settings_keep_defaults(vars: ConfigVars, c: Config)
    requires
        c.loaded_from(vars),
    ensures
        invalid_entry("OLLAMA_PORT"@, vars.ollama_port, u16::MAX as nat).len() > 0
            ==> c.ollama_port == DEFAULT_OLLAMA_PORT,
        invalid_entry("SERVER_PORT"@, vars.server_port, u16::MAX as nat).len() > 0
            ==> c.server_port == DEFAULT_SERVER_PORT,
        invalid_entry("REFRESH_INTERVAL_SECS"@, vars.refresh_interval_secs, u64::MAX as nat).len()
            > 0 ==> c.refresh_interval_secs == DEFAULT_REFRESH_INTERVAL_SECS,
        invalid_entry("GPU_DEVICE_INDEX"@, vars.gpu_device_index, usize::MAX as nat).len() > 0
            ==> c.gpu_device_index == DEFAULT_GPU_DEVICE_INDEX,
{
}

} // verus!
