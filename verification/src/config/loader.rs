use vstd::prelude::*;

use crate::json::opt_view;

use crate::config::model::{CorsConfig, LoggingConfig, McpConfig, ServerConfig};
use crate::lists::texts;
use crate::text::{
    chars_of, concat2, concat3, decimal, is_ascii_digit, is_empty_text, lower_seq, owned, push_char,
    str_eq, string_from_range, trim, trim_lower, trim_seq,
};

verus! {

/// Why a number in the environment was refused.
#[derive(Debug, Clone, Copy, PartialEq, Eq, Structural)]
pub enum NumberFault {
    /// Nothing to parse.
    Empty,
    /// A character that is not a decimal digit.
    InvalidDigit,
    /// More than the type holds.
    Overflow,
    /// Zero where a positive number is needed.
    NotPositive,
}

/// A refused environment override: the variable, its value and the fault.
#[derive(Debug, Clone, PartialEq, Eq)]
pub struct ConfigError {
    pub key: String,
    pub raw: String,
    pub fault: NumberFault,
}

/// How `str::parse` describes a failed integer parse.
pub open spec fn parse_fault_text(f: NumberFault) -> Seq<char> {
    match f {
        NumberFault::Empty => "cannot parse integer from empty string"@,
        NumberFault::InvalidDigit => "invalid digit found in string"@,
        NumberFault::Overflow => "number too large to fit in target type"@,
        NumberFault::NotPositive => Seq::empty(),
    }
}

impl ConfigError {
    pub open spec fn text(self) -> Seq<char> {
        match self.fault {
            NumberFault::NotPositive => self.key@ + " must be greater than 0"@,
            _ => "invalid "@ + self.key@ + " value: "@ + self.raw@ + " ("@ + parse_fault_text(
                self.fault,
            ) + ")"@,
        }
    }

    /// The refusal as text.
    pub fn message(&self) -> (m: String)
        ensures
            m@ == self.text(),
    {
        match self.fault {
            NumberFault::NotPositive => concat2(self.key.as_str(), " must be greater than 0"),
            _ => {
                let head = concat3("invalid ", self.key.as_str(), " value: ");
                let head = concat3(head.as_str(), self.raw.as_str(), " (");
                let reason = match self.fault {
                    NumberFault::Empty => "cannot parse integer from empty string",
                    NumberFault::InvalidDigit => "invalid digit found in string",
                    _ => "number too large to fit in target type",
                };
                concat3(head.as_str(), reason, ")")
            },
        }
    }
}

pub open spec fn digit_value(c: char) -> nat {
    ((c as u32) - ('0' as u32)) as nat
}

/// Scanning decimal digits from the left onto `acc`, refusing a non-digit
/// and a value above `max` as soon as it is met.
pub open spec fn scan_digits(s: Seq<char>, acc: nat, max: nat) -> Result<nat, NumberFault>
    decreases s.len(),
{
    if s.len() == 0 {
        Ok(acc)
    } else if !is_ascii_digit(s[0]) {
        Err(NumberFault::InvalidDigit)
    } else if acc * 10 + digit_value(s[0]) > max {
        Err(NumberFault::Overflow)
    } else {
        scan_digits(s.drop_first(), acc * 10 + digit_value(s[0]), max)
    }
}

/// `str::parse` of an unsigned integer no larger than `max`: an optional
/// leading `+`, then decimal digits.
pub open spec fn parse_unsigned(s: Seq<char>, max: nat) -> Result<nat, NumberFault> {
    if s.len() == 0 {
        Err(NumberFault::Empty)
    } else if s == seq!['+'] || s == seq!['-'] {
        Err(NumberFault::InvalidDigit)
    } else if s[0] == '+' {
        scan_digits(s.drop_first(), 0, max)
    } else {
        scan_digits(s, 0, max)
    }
}

proof fn lemma_scan_bound(s: Seq<char>, acc: nat, max: nat)
    requires
        acc <= max,
    ensures
        scan_digits(s, acc, max) matches Ok(v) ==> v <= max,
    decreases s.len(),
{
    if s.len() > 0 && is_ascii_digit(s[0]) && acc * 10 + digit_value(s[0]) <= max {
        lemma_scan_bound(s.drop_first(), acc * 10 + digit_value(s[0]), max);
    }
}

/// A number read within `max` is at most `max`.
pub proof fn lemma_parse_bound(s: Seq<char>, max: nat)
    ensures
        parse_unsigned(s, max) matches Ok(v) ==> v <= max,
{
    lemma_scan_bound(s, 0, max);
    lemma_scan_bound(s.drop_first(), 0, max);
}

/// Parses an unsigned decimal number no larger than `max`, as
/// `parse_unsigned` states.
pub fn parse_unsigned_exec(raw: &str, max: u64) -> (r: Result<u64, NumberFault>)
    ensures
        match r {
            Ok(v) => parse_unsigned(raw@, max as nat) == Ok::<nat, NumberFault>(v as nat),
            Err(f) => parse_unsigned(raw@, max as nat) == Err::<nat, NumberFault>(f),
        },
{
    let v = chars_of(raw);
    if v.len() == 0 {
        return Err(NumberFault::Empty);
    }
    if v.len() == 1 && (v[0] == '+' || v[0] == '-') {
        assert(v@ =~= seq![v[0]]);
        return Err(NumberFault::InvalidDigit);
    }
    proof {
        if v@.len() == 1 {
            assert(v@ != seq!['+'] && v@ != seq!['-']);
        } else {
            assert(v@ != seq!['+'] && v@ != seq!['-']) by {
                assert(seq!['+'].len() == 1 && seq!['-'].len() == 1);
            }
        }
    }
    let mut i: usize = if v[0] == '+' {
        1
    } else {
        0
    };
    let ghost digits = v@.skip(i as int);
    assert(v[0] == '+' ==> digits =~= v@.drop_first());
    assert(v[0] != '+' ==> digits =~= v@);
    let mut acc: u64 = 0;
    while i < v.len()
        invariant
            0 < v.len(),
            i <= v.len(),
            v@ == raw@,
            acc <= max,
            parse_unsigned(raw@, max as nat) == scan_digits(v@.skip(i as int), acc as nat, max as nat),
        decreases v.len() - i,
    {
        let c = v[i];
        let ghost rest = v@.skip(i as int);
        assert(rest[0] == c);
        assert(rest.drop_first() =~= v@.skip(i + 1));
        if !(c >= '0' && c <= '9') {
            return Err(NumberFault::InvalidDigit);
        }
        let d = (c as u32 - '0' as u32) as u64;
        assert(d as nat == digit_value(c));
        if d > max {
            return Err(NumberFault::Overflow);
        }
        if acc > (max - d) / 10 {
            assert(acc * 10 + d > max) by (nonlinear_arith)
                requires
                    acc > (max - d) / 10,
                    d <= max,
            ;
            return Err(NumberFault::Overflow);
        }
        assert(acc * 10 + d <= max) by (nonlinear_arith)
            requires
                acc <= (max - d) / 10,
                d <= 9,
        ;
        acc = acc * 10 + d;
        i += 1;
    }
    assert(v@.skip(i as int) =~= Seq::<char>::empty());
    Ok(acc)
}

/// The value of a variable in an environment given as pairs; a later pair
/// for the same variable wins.
pub open spec fn env_value(env: Seq<(Seq<char>, Seq<char>)>, key: Seq<char>) -> Option<Seq<char>>
    decreases env.len(),
{
    if env.len() == 0 {
        None
    } else if env.last().0 == key {
        Some(env.last().1)
    } else {
        env_value(env.drop_last(), key)
    }
}

pub open spec fn env_views(env: Seq<(String, String)>) -> Seq<(Seq<char>, Seq<char>)> {
    env.map_values(|e: (String, String)| (e.0@, e.1@))
}

/// The value of a variable, if the environment has it.
pub fn env_lookup(env: &Vec<(String, String)>, key: &str) -> (r: Option<String>)
    ensures
        match r {
            Some(v) => env_value(env_views(env@), key@) == Some(v@),
            None => env_value(env_views(env@), key@) is None,
        },
{
    let ghost es = env_views(env@);
    let mut i: usize = env.len();
    assert(es.take(i as int) =~= es);
    while i > 0
        invariant
            0 <= i <= env.len(),
            es == env_views(env@),
            env_value(es, key@) == env_value(es.take(i as int), key@),
        decreases i,
    {
        let ghost pre = es.take(i as int);
        assert(pre.drop_last() =~= es.take(i - 1));
        assert(pre.last() == (env@[i - 1].0@, env@[i - 1].1@));
        if str_eq(env[i - 1].0.as_str(), key) {
            return Some(owned(env[i - 1].1.as_str()));
        }
        i -= 1;
    }
    assert(es.take(0) =~= Seq::<(Seq<char>, Seq<char>)>::empty());
    None
}

/// The trimmed value of the first of `keys` whose value is not blank.
pub open spec fn first_non_empty(env: Seq<(Seq<char>, Seq<char>)>, keys: Seq<Seq<char>>) -> Option<
    Seq<char>,
>
    decreases keys.len(),
{
    if keys.len() == 0 {
        None
    } else {
        match env_value(env, keys[0]) {
            Some(v) => if trim_seq(v).len() > 0 {
                Some(trim_seq(v))
            } else {
                first_non_empty(env, keys.drop_first())
            },
            None => first_non_empty(env, keys.drop_first()),
        }
    }
}

/// The trimmed value of the first of `keys` whose value is not blank.
pub fn first_non_empty_env(env: &Vec<(String, String)>, keys: &Vec<&str>) -> (r: Option<String>)
    ensures
        match r {
            Some(v) => first_non_empty(env_views(env@), keys@.map_values(|k: &str| k@)) == Some(v@),
            None => first_non_empty(env_views(env@), keys@.map_values(|k: &str| k@)) is None,
        },
{
    let ghost ks = keys@.map_values(|k: &str| k@);
    let ghost es = env_views(env@);
    let mut i: usize = 0;
    assert(ks.skip(0) =~= ks);
    while i < keys.len()
        invariant
            0 <= i <= keys.len(),
            ks == keys@.map_values(|k: &str| k@),
            es == env_views(env@),
            first_non_empty(es, ks) == first_non_empty(es, ks.skip(i as int)),
        decreases keys.len() - i,
    {
        let ghost rest = ks.skip(i as int);
        assert(rest[0] == keys@[i as int]@);
        assert(rest.drop_first() =~= ks.skip(i + 1));
        match env_lookup(env, keys[i]) {
            Some(v) => {
                let t = trim(v.as_str());
                if !is_empty_text(t.as_str()) {
                    return Some(t);
                }
            },
            None => {},
        }
        i += 1;
    }
    assert(ks.skip(i as int) =~= Seq::<Seq<char>>::empty());
    None
}

/// The non-blank trimmed items of a comma-separated list, after the partial
/// item `cur`.
pub open spec fn csv_from(s: Seq<char>, cur: Seq<char>) -> Seq<Seq<char>>
    decreases s.len(),
{
    if s.len() == 0 {
        if trim_seq(cur).len() > 0 {
            seq![trim_seq(cur)]
        } else {
            Seq::empty()
        }
    } else if s[0] == ',' {
        (if trim_seq(cur).len() > 0 {
            seq![trim_seq(cur)]
        } else {
            Seq::empty()
        }) + csv_from(s.drop_first(), Seq::empty())
    } else {
        csv_from(s.drop_first(), cur.push(s[0]))
    }
}

/// The non-blank trimmed items of a comma-separated list.
pub open spec fn csv_items(s: Seq<char>) -> Seq<Seq<char>> {
    csv_from(s, Seq::empty())
}

/// The non-blank trimmed items of a comma-separated list, in order.
pub fn split_csv(raw: &str) -> (r: Vec<String>)
    ensures
        texts(r@) == csv_items(raw@),
{
    let v = chars_of(raw);
    let mut out: Vec<String> = Vec::new();
    let mut cur = String::new();
    let mut i: usize = 0;
    assert(v@.skip(0) =~= v@);
    while i < v.len()
        invariant
            0 <= i <= v.len(),
            v@ == raw@,
            texts(out@) + csv_from(v@.skip(i as int), cur@) == csv_items(raw@),
        decreases v.len() - i,
    {
        let ghost rest = v@.skip(i as int);
        assert(rest.drop_first() =~= v@.skip(i + 1));
        assert(rest[0] == v[i as int]);
        if v[i] == ',' {
            let t = trim(cur.as_str());
            let ghost before = texts(out@);
            if !is_empty_text(t.as_str()) {
                out.push(t);
                assert(texts(out@) =~= before.push(trim_seq(cur@)));
                assert(before + (seq![trim_seq(cur@)] + csv_from(v@.skip(i + 1), Seq::empty()))
                    =~= texts(out@) + csv_from(v@.skip(i + 1), Seq::empty()));
            } else {
                assert(before + (Seq::<Seq<char>>::empty() + csv_from(v@.skip(i + 1), Seq::empty()))
                    =~= before + csv_from(v@.skip(i + 1), Seq::empty()));
            }
            cur = String::new();
        } else {
            push_char(&mut cur, v[i]);
        }
        i += 1;
    }
    let t = trim(cur.as_str());
    let ghost before = texts(out@);
    assert(v@.skip(i as int) =~= Seq::<char>::empty());
    if !is_empty_text(t.as_str()) {
        out.push(t);
        assert(texts(out@) =~= before.push(trim_seq(cur@)));
        assert(before + seq![trim_seq(cur@)] =~= texts(out@));
    } else {
        assert(before + Seq::<Seq<char>>::empty() =~= before);
    }
    out
}

/// A number from the environment that must be positive: parsed, and zero
/// refused.
pub open spec fn parse_positive(s: Seq<char>, max: nat) -> Result<nat, NumberFault> {
    match parse_unsigned(s, max) {
        Ok(v) => if v == 0 {
            Err(NumberFault::NotPositive)
        } else {
            Ok(v)
        },
        Err(f) => Err(f),
    }
}

fn parse_positive_exec(key: &str, raw: &str, max: u64) -> (r: Result<u64, ConfigError>)
    ensures
        match r {
            Ok(v) => parse_positive(raw@, max as nat) == Ok::<nat, NumberFault>(v as nat),
            Err(e) => parse_positive(raw@, max as nat) == Err::<nat, NumberFault>(e.fault)
                && e.key@ == key@ && e.raw@ == raw@,
        },
{
    match parse_unsigned_exec(raw, max) {
        Ok(v) => if v == 0 {
            Err(ConfigError { key: owned(key), raw: owned(raw), fault: NumberFault::NotPositive })
        } else {
            Ok(v)
        },
        Err(f) => Err(ConfigError { key: owned(key), raw: owned(raw), fault: f }),
    }
}

/// The value of one variable, for the override table.
pub open spec fn var(env: Seq<(Seq<char>, Seq<char>)>, key: Seq<char>) -> Option<Seq<char>> {
    first_non_empty(env, seq![key])
}

fn var_exec(env: &Vec<(String, String)>, key: &'static str) -> (r: Option<String>)
    ensures
        match r {
            Some(v) => var(env_views(env@), key@) == Some(v@),
            None => var(env_views(env@), key@) is None,
        },
{
    let keys = vec![key];
    assert(keys@.map_values(|k: &str| k@) =~= seq![key@]);
    first_non_empty_env(env, &keys)
}

/// The overrides of the agent's model settings that the environment gives.
#[derive(Debug, Clone)]
pub struct AgentEnvOverrides {
    pub model_id: Option<String>,
    pub base_url: Option<String>,
    pub api_key: Option<String>,
    pub max_tokens: Option<u32>,
}

/// The agent overrides: the model from `AGENT_MODEL_ID` or `MODEL_ID`, the
/// endpoint from `AGENT_BASE_URL` or `ANTHROPIC_BASE_URL`, the key from
/// `AGENT_API_KEY`, and a positive `AGENT_MAX_TOKENS`. The model, endpoint and
/// key are read before the token limit, so they are given even when the limit
/// is refused; the refusal comes second.
pub fn agent_env_overrides(env: &Vec<(String, String)>) -> (r: (
    AgentEnvOverrides,
    Option<ConfigError>,
))
    ensures
        ({
            let es = env_views(env@);
            &&& opt_view(r.0.model_id) == first_non_empty(es, seq!["AGENT_MODEL_ID"@, "MODEL_ID"@])
            &&& opt_view(r.0.base_url) == first_non_empty(
                es,
                seq!["AGENT_BASE_URL"@, "ANTHROPIC_BASE_URL"@],
            )
            &&& opt_view(r.0.api_key) == var(es, "AGENT_API_KEY"@)
            &&& match var(es, "AGENT_MAX_TOKENS"@) {
                Some(raw) => match parse_positive(raw, u32::MAX as nat) {
                    Err(f) => (r.1 matches Some(e) && e.fault == f && e.key@ == "AGENT_MAX_TOKENS"@
                        && e.raw@ == raw) && r.0.max_tokens is None,
                    Ok(n) => r.1 is None && r.0.max_tokens == Some(n as u32),
                },
                None => r.1 is None && r.0.max_tokens is None,
            }
        }),
{
    let model_keys = vec!["AGENT_MODEL_ID", "MODEL_ID"];
    assert(model_keys@.map_values(|k: &str| k@) =~= seq!["AGENT_MODEL_ID"@, "MODEL_ID"@]);
    let model_id = first_non_empty_env(env, &model_keys);
    let url_keys = vec!["AGENT_BASE_URL", "ANTHROPIC_BASE_URL"];
    assert(url_keys@.map_values(|k: &str| k@) =~= seq!["AGENT_BASE_URL"@, "ANTHROPIC_BASE_URL"@]);
    let base_url = first_non_empty_env(env, &url_keys);
    let api_key = var_exec(env, "AGENT_API_KEY");
    let (max_tokens, error) = match var_exec(env, "AGENT_MAX_TOKENS") {
        Some(raw) => match parse_positive_exec("AGENT_MAX_TOKENS", raw.as_str(), 0xffff_ffff) {
            Ok(n) => {
                proof {
                    lemma_parse_bound(raw@, u32::MAX as nat);
                }
                (Some(n as u32), None)
            },
            Err(e) => (None, Some(e)),
        },
        None => (None, None),
    };
    (AgentEnvOverrides { model_id, base_url, api_key, max_tokens }, error)
}

/// An override of a text setting: the variable's value when set, the old
/// value otherwise.
pub open spec fn text_override(v: Option<Seq<char>>, old: Seq<char>) -> Seq<char> {
    match v {
        Some(x) => x,
        None => old,
    }
}

/// An override of a list setting: the items of the variable's value when
/// set, the old list otherwise.
pub open spec fn list_override(v: Option<Seq<char>>, old: Seq<Seq<char>>) -> Seq<Seq<char>> {
    match v {
        Some(x) => csv_items(x),
        None => old,
    }
}

/// A value that switches a flag on.
pub open spec fn truthy(v: Seq<char>) -> bool {
    let t = lower_seq(trim_seq(v));
    t == "1"@ || t == "true"@ || t == "yes"@ || t == "on"@
}

/// The first refused number among `SERVER_PORT`, `MCP_TIMEOUT` and
/// `MCP_CONNECT_TIMEOUT`, with its variable and value.
pub open spec fn service_env_error(env: Seq<(Seq<char>, Seq<char>)>) -> Option<
    (Seq<char>, Seq<char>, NumberFault),
> {
    let port = match var(env, "SERVER_PORT"@) {
        Some(raw) => match parse_unsigned(raw, 65535) {
            Err(f) => Some(("SERVER_PORT"@, raw, f)),
            Ok(_) => None,
        },
        None => None,
    };
    let timeout = match var(env, "MCP_TIMEOUT"@) {
        Some(raw) => match parse_positive(raw, u64::MAX as nat) {
            Err(f) => Some(("MCP_TIMEOUT"@, raw, f)),
            Ok(_) => None,
        },
        None => None,
    };
    let connect = match var(env, "MCP_CONNECT_TIMEOUT"@) {
        Some(raw) => match parse_positive(raw, u64::MAX as nat) {
            Err(f) => Some(("MCP_CONNECT_TIMEOUT"@, raw, f)),
            Ok(_) => None,
        },
        None => None,
    };
    if port is Some {
        port
    } else if timeout is Some {
        timeout
    } else {
        connect
    }
}

/// The setting an environment number gives, or the old one.
pub open spec fn number_override(v: Option<Seq<char>>, max: nat, positive: bool, old: nat) -> nat {
    match v {
        Some(raw) => match (if positive {
            parse_positive(raw, max)
        } else {
            parse_unsigned(raw, max)
        }) {
            Ok(n) => n,
            Err(_) => old,
        },
        None => old,
    }
}

fn copy_list(v: &Vec<String>) -> (r: Vec<String>)
    ensures
        texts(r@) == texts(v@),
{
    let mut r: Vec<String> = Vec::new();
    let mut i: usize = 0;
    while i < v.len()
        invariant
            0 <= i <= v.len(),
            r@.len() == i,
            forall|k: int| 0 <= k < i ==> (#[trigger] r@[k])@ == v@[k]@,
        decreases v.len() - i,
    {
        r.push(owned(v[i].as_str()));
        i += 1;
    }
    assert(texts(r@) =~= texts(v@));
    r
}

fn list_from(v: Option<String>, old: &Vec<String>) -> (r: Vec<String>)
    ensures
        texts(r@) == list_override(opt_view(v), texts(old@)),
{
    match v {
        Some(x) => split_csv(x.as_str()),
        None => copy_list(old),
    }
}

fn text_from(v: Option<String>, old: &String) -> (r: String)
    ensures
        r@ == text_override(opt_view(v), old@),
{
    match v {
        Some(x) => x,
        None => owned(old.as_str()),
    }
}

/// Whether the variable, if set, holds a number within the bound (and above
/// zero where it must be).
pub open spec fn number_accepted(v: Option<Seq<char>>, max: nat, positive: bool) -> bool {
    match v {
        Some(raw) => (if positive {
            parse_positive(raw, max)
        } else {
            parse_unsigned(raw, max)
        }) is Ok,
        None => true,
    }
}

/// The variable's value where the overrides before it were all accepted, so
/// that it is read at all.
pub open spec fn gated(reached: bool, v: Option<Seq<char>>) -> Option<Seq<char>> {
    if reached {
        v
    } else {
        None
    }
}

/// The server, MCP and logging settings with the environment's overrides,
/// read in this order: `SERVER_HOST`, `SERVER_PORT`, the `CORS_ALLOW_*` lists
/// and flag, `MCP_BASE_URL`, `MCP_TIMEOUT`, `MCP_CONNECT_TIMEOUT` and
/// `LOG_DIR`. A refused number stops the reading: the overrides read before
/// it stay applied, the settings after it keep their old values, and the
/// refusal comes second, as `service_env_error` states.
pub fn service_env_overrides(
    env: &Vec<(String, String)>,
    server: &ServerConfig,
    mcp: &McpConfig,
    logging: &LoggingConfig,
) -> (r: (ServerConfig, McpConfig, LoggingConfig, Option<ConfigError>))
    ensures
        ({
            let es = env_views(env@);
            let (s, m, l, err) = r;
            let port_ok = number_accepted(var(es, "SERVER_PORT"@), 65535, false);
            let timeout_ok = port_ok && number_accepted(
                var(es, "MCP_TIMEOUT"@),
                u64::MAX as nat,
                true,
            );
            let connect_ok = timeout_ok && number_accepted(
                var(es, "MCP_CONNECT_TIMEOUT"@),
                u64::MAX as nat,
                true,
            );
            &&& match service_env_error(es) {
                Some((k, raw, f)) => err matches Some(e) && e.key@ == k && e.raw@ == raw && e.fault
                    == f,
                None => err is None,
            }
            &&& s.host@ == text_override(var(es, "SERVER_HOST"@), server.host@)
            &&& s.port as nat == number_override(
                var(es, "SERVER_PORT"@),
                65535,
                false,
                server.port as nat,
            )
            &&& texts(s.cors.allow_origins@) == list_override(
                gated(port_ok, var(es, "CORS_ALLOW_ORIGINS"@)),
                texts(server.cors.allow_origins@),
            )
            &&& s.cors.allow_credentials == match gated(port_ok, var(es, "CORS_ALLOW_CREDENTIALS"@)) {
                Some(v) => truthy(v),
                None => server.cors.allow_credentials,
            }
            &&& texts(s.cors.allow_methods@) == list_override(
                gated(port_ok, var(es, "CORS_ALLOW_METHODS"@)),
                texts(server.cors.allow_methods@),
            )
            &&& texts(s.cors.allow_headers@) == list_override(
                gated(port_ok, var(es, "CORS_ALLOW_HEADERS"@)),
                texts(server.cors.allow_headers@),
            )
            &&& s.reload == server.reload
            &&& m.base_url@ == text_override(gated(port_ok, var(es, "MCP_BASE_URL"@)), mcp.base_url@)
            &&& m.timeout as nat == number_override(
                gated(port_ok, var(es, "MCP_TIMEOUT"@)),
                u64::MAX as nat,
                true,
                mcp.timeout as nat,
            )
            &&& m.connect_timeout as nat == number_override(
                gated(timeout_ok, var(es, "MCP_CONNECT_TIMEOUT"@)),
                u64::MAX as nat,
                true,
                mcp.connect_timeout as nat,
            )
            &&& l.dir@ == text_override(gated(connect_ok, var(es, "LOG_DIR"@)), logging.dir@)
        }),
{
    let ghost es = env_views(env@);
    let host = text_from(var_exec(env, "SERVER_HOST"), &server.host);
    let mut error: Option<ConfigError> = None;
    let port = match var_exec(env, "SERVER_PORT") {
        Some(raw) => match parse_unsigned_exec(raw.as_str(), 65535) {
            Ok(n) => {
                proof {
                    lemma_parse_bound(raw@, 65535);
                }
                n as u16
            },
            Err(f) => {
                error = Some(ConfigError { key: owned("SERVER_PORT"), raw, fault: f });
                server.port
            },
        },
        None => server.port,
    };
    let port_ok = error.is_none();
    let allow_origins = list_from(
        if port_ok {
            var_exec(env, "CORS_ALLOW_ORIGINS")
        } else {
            None
        },
        &server.cors.allow_origins,
    );
    let credentials = if port_ok {
        var_exec(env, "CORS_ALLOW_CREDENTIALS")
    } else {
        None
    };
    let allow_credentials = match credentials {
        Some(v) => {
            let t = trim_lower(v.as_str());
            str_eq(t.as_str(), "1") || str_eq(t.as_str(), "true") || str_eq(t.as_str(), "yes")
                || str_eq(t.as_str(), "on")
        },
        None => server.cors.allow_credentials,
    };
    let allow_methods = list_from(
        if port_ok {
            var_exec(env, "CORS_ALLOW_METHODS")
        } else {
            None
        },
        &server.cors.allow_methods,
    );
    let allow_headers = list_from(
        if port_ok {
            var_exec(env, "CORS_ALLOW_HEADERS")
        } else {
            None
        },
        &server.cors.allow_headers,
    );
    let base_url = text_from(
        if port_ok {
            var_exec(env, "MCP_BASE_URL")
        } else {
            None
        },
        &mcp.base_url,
    );
    let timeout_raw = if port_ok {
        var_exec(env, "MCP_TIMEOUT")
    } else {
        None
    };
    let timeout = match timeout_raw {
        Some(raw) => match parse_positive_exec("MCP_TIMEOUT", raw.as_str(), 0xffff_ffff_ffff_ffff) {
            Ok(n) => n,
            Err(e) => {
                error = Some(e);
                mcp.timeout
            },
        },
        None => mcp.timeout,
    };
    let timeout_ok = error.is_none();
    let connect_raw = if timeout_ok {
        var_exec(env, "MCP_CONNECT_TIMEOUT")
    } else {
        None
    };
    let connect_timeout = match connect_raw {
        Some(raw) => match parse_positive_exec(
            "MCP_CONNECT_TIMEOUT",
            raw.as_str(),
            0xffff_ffff_ffff_ffff,
        ) {
            Ok(n) => n,
            Err(e) => {
                error = Some(e);
                mcp.connect_timeout
            },
        },
        None => mcp.connect_timeout,
    };
    let connect_ok = error.is_none();
    let dir = text_from(
        if connect_ok {
            var_exec(env, "LOG_DIR")
        } else {
            None
        },
        &logging.dir,
    );
    (
        ServerConfig {
            host,
            port,
            reload: server.reload,
            cors: CorsConfig { allow_origins, allow_credentials, allow_methods, allow_headers },
        },
        McpConfig { base_url, timeout, connect_timeout },
        LoggingConfig { dir },
        error,
    )
}

} // verus!
