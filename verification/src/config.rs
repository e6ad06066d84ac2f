//! Configuration types and the environment merge that fills them.
//!
//! Reading the process environment is I/O and happens outside the
//! library; the merge itself works on a snapshot of name/value pairs
//! handed in, and is specified variable by variable: a scoped name
//! (`<PREFIX>_<NAME>`) wins over the global one (`<GLOBAL>_<NAME>`),
//! and a value that fails to parse falls through to the next source.

use vstd::prelude::*;
use vstd::slice::slice_index_get;
use vstd::slice::slice_subrange;
use vstd::string::StringExecFns;
use vstd::utf8::encode_utf8;

use crate::utils::str_eq;

verus! {

broadcast use vstd::slice::axiom_spec_len;

// ---------------------------------------------------------------------
// The environment snapshot.
// ---------------------------------------------------------------------

/// A snapshot of environment variables: name/value pairs, the most
/// recently set name first.
#[derive(Debug)]
pub struct EnvSnapshot {
    pairs: Vec<(String, String)>,
}

impl View for EnvSnapshot {
    type V = Seq<(Seq<char>, Seq<char>)>;

    closed spec fn view(&self) -> Seq<(Seq<char>, Seq<char>)> {
        self.pairs@.map_values(|p: (String, String)| (p.0@, p.1@))
    }
}

/// The value of `name` in the snapshot: the first pair with that name.
pub open spec fn spec_env_get(env: Seq<(Seq<char>, Seq<char>)>, name: Seq<char>) -> Option<
    Seq<char>,
>
    decreases env.len(),
{
    if env.len() == 0 {
        None
    } else if env[0].0 == name {
        Some(env[0].1)
    } else {
        spec_env_get(env.drop_first(), name)
    }
}

impl EnvSnapshot {
    /// An empty snapshot.
    pub fn new() -> (r: Self)
        ensures
            r@.len() == 0,
    {
        EnvSnapshot { pairs: Vec::new() }
    }

    /// Sets a variable; a later setting of the same name wins.
    pub fn set(&mut self, name: &str, value: &str)
        ensures
            final(self)@ == seq![(name@, value@)] + old(self)@,
    {
        self.pairs.insert(0, (name.to_owned(), value.to_owned()));
        proof {
            assert(final(self)@ =~= seq![(name@, value@)] + old(self)@);
        }
    }

    /// Looks a variable up.
    #[verifier::loop_isolation(false)]
    pub fn get(&self, name: &str) -> (r: Option<&String>)
        ensures
            match r {
                Some(v) => spec_env_get(self@, name@) == Some(v@),
                None => spec_env_get(self@, name@) is None,
            },
    {
        let n = self.pairs.len();
        let mut i: usize = 0;
        proof {
            assert(self@.skip(0) =~= self@);
        }
        while i < n
            invariant
                0 <= i <= n,
                spec_env_get(self@.skip(i as int), name@) == spec_env_get(self@, name@),
            decreases n - i,
        {
            proof {
                assert(self@.skip(i as int)[0] == self@[i as int]);
                assert(self@.skip(i as int).drop_first() =~= self@.skip(i as int + 1));
            }
            if str_eq(self.pairs[i].0.as_str(), name) {
                return Some(&self.pairs[i].1);
            }
            i = i + 1;
        }
        None
    }
}

// ---------------------------------------------------------------------
// Verified parsers for the environment's value formats.
// ---------------------------------------------------------------------

pub open spec fn spec_is_digit(b: u8) -> bool {
    48 <= b <= 57
}

pub open spec fn spec_all_digits(bs: Seq<u8>) -> bool {
    forall|i: int| 0 <= i < bs.len() ==> spec_is_digit(#[trigger] bs[i])
}

/// The number the digit bytes spell, most significant first.
pub open spec fn spec_digits_value(bs: Seq<u8>) -> int
    decreases bs.len(),
{
    if bs.len() == 0 {
        0
    } else {
        spec_digits_value(bs.drop_last()) * 10 + (bs.last() - 48)
    }
}

/// A non-empty run of digits, or nothing.
pub open spec fn spec_parse_digits(bs: Seq<u8>) -> Option<int> {
    if bs.len() == 0 || !spec_all_digits(bs) {
        None
    } else {
        Some(spec_digits_value(bs))
    }
}

/// An unsigned number: an optional leading `+`, then digits.
pub open spec fn spec_parse_uint(bs: Seq<u8>) -> Option<int> {
    if bs.len() > 0 && bs[0] == 43 {
        spec_parse_digits(bs.drop_first())
    } else {
        spec_parse_digits(bs)
    }
}

pub open spec fn spec_parse_u16(s: Seq<char>) -> Option<u16> {
    match spec_parse_uint(encode_utf8(s)) {
        Some(v) => if v <= u16::MAX {
            Some(v as u16)
        } else {
            None
        },
        None => None,
    }
}

pub open spec fn spec_parse_u64(s: Seq<char>) -> Option<u64> {
    match spec_parse_uint(encode_utf8(s)) {
        Some(v) => if v <= u64::MAX {
            Some(v as u64)
        } else {
            None
        },
        None => None,
    }
}

pub open spec fn spec_parse_i32(s: Seq<char>) -> Option<i32> {
    let bs = encode_utf8(s);
    if bs.len() > 0 && bs[0] == 45 {
        match spec_parse_digits(bs.drop_first()) {
            Some(v) => if v <= 0x80000000 {
                Some((-v) as i32)
            } else {
                None
            },
            None => None,
        }
    } else {
        match spec_parse_uint(bs) {
            Some(v) => if v <= i32::MAX {
                Some(v as i32)
            } else {
                None
            },
            None => None,
        }
    }
}

proof fn lemma_digits_value_nonneg(bs: Seq<u8>)
    requires
        spec_all_digits(bs),
    ensures
        spec_digits_value(bs) >= 0,
    decreases bs.len(),
{
    if bs.len() > 0 {
        assert forall|i: int| 0 <= i < bs.drop_last().len() implies spec_is_digit(
            #[trigger] bs.drop_last()[i],
        ) by {
            assert(bs.drop_last()[i] == bs[i]);
        }
        lemma_digits_value_nonneg(bs.drop_last());
        assert(bs.last() >= 48);
    }
}

/// The value of a digit prefix never exceeds the whole number's value.
proof fn lemma_digits_prefix_le(bs: Seq<u8>, j: int)
    requires
        spec_all_digits(bs),
        0 <= j <= bs.len(),
    ensures
        spec_digits_value(bs.take(j)) <= spec_digits_value(bs),
    decreases bs.len() - j,
{
    if j < bs.len() {
        assert forall|i: int| 0 <= i < bs.take(j).len() implies spec_is_digit(
            #[trigger] bs.take(j)[i],
        ) by {
            assert(bs.take(j)[i] == bs[i]);
        }
        lemma_digits_value_nonneg(bs.take(j));
        assert(bs.take(j + 1).drop_last() =~= bs.take(j));
        assert(spec_digits_value(bs.take(j + 1)) == spec_digits_value(bs.take(j)) * 10 + (bs[j]
            - 48));
        lemma_digits_prefix_le(bs, j + 1);
    } else {
        assert(bs.take(j) =~= bs);
    }
}

/// Parses a run of digits, failing on a value above `bound`.
#[verifier::loop_isolation(false)]
fn parse_digits_bounded(bs: &[u8], bound: u64) -> (r: Option<u64>)
    ensures
        match spec_parse_digits(bs@) {
            Some(v) => if v <= bound {
                r matches Some(x) && x == v
            } else {
                r is None
            },
            None => r is None,
        },
{
    let n = bs.len();
    if n == 0 {
        return None;
    }
    let mut acc: u128 = 0;
    let mut i: usize = 0;
    proof {
        assert(bs@.take(0) =~= Seq::<u8>::empty());
    }
    while i < n
        invariant
            0 <= i <= n,
            spec_all_digits(bs@.take(i as int)),
            acc == spec_digits_value(bs@.take(i as int)),
            acc <= bound,
        decreases n - i,
    {
        let b = *slice_index_get(bs, i);
        if b < 48 || b > 57 {
            proof {
                assert(!spec_is_digit(bs@[i as int]));
            }
            return None;
        }
        let d = (b - 48) as u128;
        let next: u128 = acc * 10 + d;
        proof {
            assert(bs@.take(i as int + 1).drop_last() =~= bs@.take(i as int));
            assert forall|k: int| 0 <= k < i + 1 implies spec_is_digit(
                #[trigger] bs@.take(i as int + 1)[k],
            ) by {
                assert(bs@.take(i as int + 1)[k] == bs@[k]);
                if k < i {
                    assert(bs@.take(i as int)[k] == bs@[k]);
                }
            }
            assert(next == spec_digits_value(bs@.take(i as int + 1)));
        }
        if next > bound as u128 {
            proof {
                if spec_all_digits(bs@) {
                    lemma_digits_prefix_le(bs@, i as int + 1);
                }
            }
            return None;
        }
        acc = next;
        i = i + 1;
    }
    proof {
        assert(bs@.take(n as int) =~= bs@);
    }
    Some(acc as u64)
}

/// Parses an unsigned number with an optional leading `+`.
fn parse_uint_bounded(bs: &[u8], bound: u64) -> (r: Option<u64>)
    ensures
        match spec_parse_uint(bs@) {
            Some(v) => if v <= bound {
                r matches Some(x) && x == v
            } else {
                r is None
            },
            None => r is None,
        },
{
    if bs.len() > 0 && *slice_index_get(bs, 0) == 43 {
        let rest = slice_subrange(bs, 1, bs.len());
        proof {
            assert(rest@ =~= bs@.drop_first());
        }
        parse_digits_bounded(rest, bound)
    } else {
        parse_digits_bounded(bs, bound)
    }
}

pub fn parse_u16_str(s: &str) -> (r: Option<u16>)
    ensures
        r == spec_parse_u16(s@),
{
    match parse_uint_bounded(s.as_bytes(), 65535) {
        Some(v) => Some(v as u16),
        None => None,
    }
}

pub fn parse_u64_str(s: &str) -> (r: Option<u64>)
    ensures
        r == spec_parse_u64(s@),
{
    parse_uint_bounded(s.as_bytes(), u64::MAX)
}

pub fn parse_i32_str(s: &str) -> (r: Option<i32>)
    ensures
        r == spec_parse_i32(s@),
{
    let bs = s.as_bytes();
    if bs.len() > 0 && *slice_index_get(bs, 0) == 45 {
        let rest = slice_subrange(bs, 1, bs.len());
        proof {
            assert(rest@ =~= bs@.drop_first());
        }
        match parse_digits_bounded(rest, 0x80000000) {
            Some(v) => if v == 0x80000000 {
                Some(i32::MIN)
            } else {
                Some(-(v as i32))
            },
            None => None,
        }
    } else {
        match parse_uint_bounded(bs, 0x7FFFFFFF) {
            Some(v) => Some(v as i32),
            None => None,
        }
    }
}

// ---------------------------------------------------------------------
// Boolean values: trimmed, lowercased, then matched against the
// accepted words. The trim covers ASCII whitespace.
// ---------------------------------------------------------------------

pub open spec fn spec_is_ws(b: u8) -> bool {
    b == 32 || (9 <= b <= 13)
}

pub open spec fn spec_trim_start(bs: Seq<u8>) -> Seq<u8>
    decreases bs.len(),
{
    if bs.len() > 0 && spec_is_ws(bs[0]) {
        spec_trim_start(bs.drop_first())
    } else {
        bs
    }
}

pub open spec fn spec_trim_end(bs: Seq<u8>) -> Seq<u8>
    decreases bs.len(),
{
    if bs.len() > 0 && spec_is_ws(bs.last()) {
        spec_trim_end(bs.drop_last())
    } else {
        bs
    }
}

pub open spec fn spec_trim(bs: Seq<u8>) -> Seq<u8> {
    spec_trim_end(spec_trim_start(bs))
}

pub open spec fn spec_lower_byte(b: u8) -> u8 {
    if 65 <= b <= 90 {
        (b + 32) as u8
    } else {
        b
    }
}

pub open spec fn spec_lower(bs: Seq<u8>) -> Seq<u8> {
    bs.map_values(|b: u8| spec_lower_byte(b))
}

/// The boolean a value spells after trimming and lowercasing, if any.
pub open spec fn spec_parse_bool(s: Seq<char>) -> Option<bool> {
    let t = spec_lower(spec_trim(encode_utf8(s)));
    if t == encode_utf8("1"@) || t == encode_utf8("true"@) || t == encode_utf8("yes"@) || t
        == encode_utf8("y"@) || t == encode_utf8("on"@) {
        Some(true)
    } else if t == encode_utf8("0"@) || t == encode_utf8("false"@) || t == encode_utf8("no"@) || t
        == encode_utf8("n"@) || t == encode_utf8("off"@) {
        Some(false)
    } else {
        None
    }
}

/// Whether the byte is ASCII whitespace.
fn is_ws_byte(b: u8) -> (r: bool)
    ensures
        r == spec_is_ws(b),
{
    b == 32 || (b >= 9 && b <= 13)
}

/// Whether `bs`, lowercased, equals `w`.
#[verifier::loop_isolation(false)]
fn eq_lower(bs: &[u8], w: &[u8]) -> (r: bool)
    ensures
        r == (spec_lower(bs@) == w@),
{
    if bs.len() != w.len() {
        return false;
    }
    let n = bs.len();
    let mut i: usize = 0;
    while i < n
        invariant
            0 <= i <= n,
            forall|j: int| 0 <= j < i ==> spec_lower_byte(bs@[j]) == w@[j],
        decreases n - i,
    {
        let b = *slice_index_get(bs, i);
        let lb = if b >= 65 && b <= 90 {
            b + 32
        } else {
            b
        };
        if lb != *slice_index_get(w, i) {
            proof {
                if spec_lower(bs@) == w@ {
                    assert(spec_lower(bs@)[i as int] == w@[i as int]);
                }
            }
            return false;
        }
        i = i + 1;
    }
    proof {
        assert(spec_lower(bs@) =~= w@);
    }
    true
}

/// Parses a boolean word; `Err` on anything unrecognised.
#[verifier::loop_isolation(false)]
pub fn parse_bool(s: &str) -> (r: Result<bool, ()>)
    ensures
        match spec_parse_bool(s@) {
            Some(b) => r == Ok::<bool, ()>(b),
            None => r is Err,
        },
{
    let bs = s.as_bytes();
    let n = bs.len();
    let mut lo: usize = 0;
    proof {
        assert(bs@.skip(0) =~= bs@);
    }
    while lo < n && is_ws_byte(*slice_index_get(bs, lo))
        invariant
            0 <= lo <= n,
            spec_trim_start(bs@) == spec_trim_start(bs@.skip(lo as int)),
        decreases n - lo,
    {
        proof {
            assert(bs@.skip(lo as int)[0] == bs@[lo as int]);
            assert(bs@.skip(lo as int).drop_first() =~= bs@.skip(lo as int + 1));
        }
        lo = lo + 1;
    }
    let ghost t0 = bs@.skip(lo as int);
    proof {
        assert(spec_trim_start(bs@) == t0);
        assert(t0.take((n - lo) as int) =~= t0);
    }
    let mut hi: usize = n;
    while hi > lo && is_ws_byte(*slice_index_get(bs, hi - 1))
        invariant
            lo <= hi <= n,
            spec_trim_end(t0) == spec_trim_end(t0.take((hi - lo) as int)),
        decreases hi,
    {
        proof {
            let k = (hi - lo) as int;
            assert(t0.take(k).last() == bs@[hi - 1]);
            assert(t0.take(k).drop_last() =~= t0.take(k - 1));
        }
        hi = hi - 1;
    }
    let trimmed = slice_subrange(bs, lo, hi);
    proof {
        assert(trimmed@ =~= t0.take((hi - lo) as int));
        assert(trimmed@ == spec_trim(encode_utf8(s@)));
    }
    if eq_lower(trimmed, "1".as_bytes()) || eq_lower(trimmed, "true".as_bytes()) || eq_lower(
        trimmed,
        "yes".as_bytes(),
    ) || eq_lower(trimmed, "y".as_bytes()) || eq_lower(trimmed, "on".as_bytes()) {
        Ok(true)
    } else if eq_lower(trimmed, "0".as_bytes()) || eq_lower(trimmed, "false".as_bytes())
        || eq_lower(trimmed, "no".as_bytes()) || eq_lower(trimmed, "n".as_bytes()) || eq_lower(
        trimmed,
        "off".as_bytes(),
    ) {
        Ok(false)
    } else {
        Err(())
    }
}


// ---------------------------------------------------------------------
// The configuration types and their ghost images.
// ---------------------------------------------------------------------

/// One cluster endpoint's settings.
#[derive(Clone, Debug)]
pub struct DbEndpoint {
    pub host: String,
    pub port: u16,
    pub keyspace: String,
    pub datacenter: String,
    pub rack: String,
    pub username: String,
    pub password: String,
    pub use_tls: bool,
    pub tls_ca_file: Option<String>,
    pub tls_insecure_skip_verify: bool,
    pub replication_factor: Option<u32>,
    pub durable_writes: Option<bool>,
}

#[verifier::ext_equal]
pub struct DbEndpointView {
    pub host: Seq<char>,
    pub port: u16,
    pub keyspace: Seq<char>,
    pub datacenter: Seq<char>,
    pub rack: Seq<char>,
    pub username: Seq<char>,
    pub password: Seq<char>,
    pub use_tls: bool,
    pub tls_ca_file: Option<Seq<char>>,
    pub tls_insecure_skip_verify: bool,
    pub replication_factor: Option<u32>,
    pub durable_writes: Option<bool>,
}

impl View for DbEndpoint {
    type V = DbEndpointView;

    open spec fn view(&self) -> DbEndpointView {
        DbEndpointView {
            host: self.host@,
            port: self.port,
            keyspace: self.keyspace@,
            datacenter: self.datacenter@,
            rack: self.rack@,
            username: self.username@,
            password: self.password@,
            use_tls: self.use_tls,
            tls_ca_file: match self.tls_ca_file {
                Some(ref f) => Some(f@),
                None => None,
            },
            tls_insecure_skip_verify: self.tls_insecure_skip_verify,
            replication_factor: self.replication_factor,
            durable_writes: self.durable_writes,
        }
    }
}

/// Driver-level settings.
#[derive(Clone, Debug)]
pub struct DriverConfig {
    pub request_timeout_ms: Option<u64>,
    pub connection_timeout_ms: Option<u64>,
    pub tcp_keepalive_secs: Option<u64>,
    pub compression: Option<String>,
    pub default_page_size: Option<i32>,
}

#[verifier::ext_equal]
pub struct DriverConfigView {
    pub request_timeout_ms: Option<u64>,
    pub connection_timeout_ms: Option<u64>,
    pub tcp_keepalive_secs: Option<u64>,
    pub compression: Option<Seq<char>>,
    pub default_page_size: Option<i32>,
}

impl View for DriverConfig {
    type V = DriverConfigView;

    open spec fn view(&self) -> DriverConfigView {
        DriverConfigView {
            request_timeout_ms: self.request_timeout_ms,
            connection_timeout_ms: self.connection_timeout_ms,
            tcp_keepalive_secs: self.tcp_keepalive_secs,
            compression: match self.compression {
                Some(ref c) => Some(c@),
                None => None,
            },
            default_page_size: self.default_page_size,
        }
    }
}

/// The HTTP surface's settings.
#[derive(Clone, Debug)]
pub struct ServerConfig {
    pub bind_addr: String,
}

/// The whole configuration.
#[derive(Clone, Debug)]
pub struct AppConfig {
    pub active: DbEndpoint,
    pub passive: DbEndpoint,
    pub driver: DriverConfig,
    pub server: ServerConfig,
}

/// The built-in Active endpoint.
pub open spec fn spec_default_endpoint() -> DbEndpointView {
    DbEndpointView {
        host: "127.0.0.1"@,
        port: 9042,
        keyspace: "batch"@,
        datacenter: "asia-southeast2"@,
        rack: "asia-southeast2-a"@,
        username: "cassandra"@,
        password: "cassandra"@,
        use_tls: false,
        tls_ca_file: None,
        tls_insecure_skip_verify: false,
        replication_factor: Some(3u32),
        durable_writes: Some(true),
    }
}

/// The built-in Passive endpoint: the Active one on the next port and
/// the sibling rack.
pub open spec fn spec_default_passive() -> DbEndpointView {
    DbEndpointView { port: 9043, rack: "asia-southeast2-b"@, ..spec_default_endpoint() }
}

// ---------------------------------------------------------------------
// The merge, variable by variable.
// ---------------------------------------------------------------------

pub open spec fn spec_opt_view(o: Option<&str>) -> Option<Seq<char>> {
    match o {
        Some(s) => Some(s@),
        None => None,
    }
}

/// The full variable name `<PREFIX>_<NAME>`.
pub open spec fn spec_var_name(prefix: Seq<char>, name: Seq<char>) -> Seq<char> {
    prefix + "_"@ + name
}

/// The scoped lookup: the prefixed name first, then the global one.
pub open spec fn spec_scoped_get(
    env: Seq<(Seq<char>, Seq<char>)>,
    prefix: Seq<char>,
    gp: Option<Seq<char>>,
    name: Seq<char>,
) -> Option<Seq<char>> {
    match spec_env_get(env, spec_var_name(prefix, name)) {
        Some(v) => Some(v),
        None => match gp {
            Some(g) => spec_env_get(env, spec_var_name(g, name)),
            None => None,
        },
    }
}

pub open spec fn spec_read_env_string(
    env: Seq<(Seq<char>, Seq<char>)>,
    prefix: Seq<char>,
    gp: Option<Seq<char>>,
    name: Seq<char>,
    default: Seq<char>,
) -> Seq<char> {
    match spec_scoped_get(env, prefix, gp, name) {
        Some(v) => v,
        None => default,
    }
}

/// A `u16` variable: a source whose value fails to parse falls
/// through to the next source, then to the default.
pub open spec fn spec_read_env_u16(
    env: Seq<(Seq<char>, Seq<char>)>,
    prefix: Seq<char>,
    gp: Option<Seq<char>>,
    name: Seq<char>,
    default: u16,
) -> u16 {
    let sv = match spec_env_get(env, spec_var_name(prefix, name)) {
        Some(v) => spec_parse_u16(v),
        None => None,
    };
    match sv {
        Some(p) => p,
        None => {
            let gv = match gp {
                Some(g) => match spec_env_get(env, spec_var_name(g, name)) {
                    Some(v) => spec_parse_u16(v),
                    None => None,
                },
                None => None,
            };
            match gv {
                Some(p) => p,
                None => default,
            }
        },
    }
}

/// A boolean variable, with the same fall-through as `u16`.
pub open spec fn spec_read_env_bool(
    env: Seq<(Seq<char>, Seq<char>)>,
    prefix: Seq<char>,
    gp: Option<Seq<char>>,
    name: Seq<char>,
    default: bool,
) -> bool {
    let sv = match spec_env_get(env, spec_var_name(prefix, name)) {
        Some(v) => spec_parse_bool(v),
        None => None,
    };
    match sv {
        Some(p) => p,
        None => {
            let gv = match gp {
                Some(g) => match spec_env_get(env, spec_var_name(g, name)) {
                    Some(v) => spec_parse_bool(v),
                    None => None,
                },
                None => None,
            };
            match gv {
                Some(p) => p,
                None => default,
            }
        },
    }
}

pub open spec fn spec_read_env_opt_u64(
    env: Seq<(Seq<char>, Seq<char>)>,
    gp: Seq<char>,
    name: Seq<char>,
) -> Option<u64> {
    match spec_env_get(env, spec_var_name(gp, name)) {
        Some(v) => spec_parse_u64(v),
        None => None,
    }
}

pub open spec fn spec_read_env_opt_i32(
    env: Seq<(Seq<char>, Seq<char>)>,
    gp: Seq<char>,
    name: Seq<char>,
) -> Option<i32> {
    match spec_env_get(env, spec_var_name(gp, name)) {
        Some(v) => spec_parse_i32(v),
        None => None,
    }
}

/// The endpoint a prefix reads from the environment over defaults.
pub open spec fn spec_endpoint_from_env(
    env: Seq<(Seq<char>, Seq<char>)>,
    prefix: Seq<char>,
    gp: Option<Seq<char>>,
    d: DbEndpointView,
) -> DbEndpointView {
    DbEndpointView {
        host: spec_read_env_string(env, prefix, gp, "HOST"@, d.host),
        port: spec_read_env_u16(env, prefix, gp, "PORT"@, d.port),
        keyspace: spec_read_env_string(env, prefix, gp, "KEYSPACE"@, d.keyspace),
        datacenter: spec_read_env_string(env, prefix, gp, "DATACENTER"@, d.datacenter),
        rack: spec_read_env_string(env, prefix, gp, "RACK"@, d.rack),
        username: spec_read_env_string(env, prefix, gp, "USERNAME"@, d.username),
        password: spec_read_env_string(env, prefix, gp, "PASSWORD"@, d.password),
        use_tls: spec_read_env_bool(env, prefix, gp, "USE_TLS"@, d.use_tls),
        tls_ca_file: match spec_scoped_get(env, prefix, gp, "TLS_CA_FILE"@) {
            Some(v) => Some(v),
            None => d.tls_ca_file,
        },
        tls_insecure_skip_verify: spec_read_env_bool(
            env,
            prefix,
            gp,
            "TLS_INSECURE_SKIP_VERIFY"@,
            d.tls_insecure_skip_verify,
        ),
        replication_factor: d.replication_factor,
        durable_writes: d.durable_writes,
    }
}

/// The driver settings a global prefix reads from the environment.
pub open spec fn spec_driver_from_env(env: Seq<(Seq<char>, Seq<char>)>, gp: Seq<char>)
    -> DriverConfigView {
    DriverConfigView {
        request_timeout_ms: spec_read_env_opt_u64(env, gp, "REQUEST_TIMEOUT_MS"@),
        connection_timeout_ms: spec_read_env_opt_u64(env, gp, "CONNECTION_TIMEOUT_MS"@),
        tcp_keepalive_secs: spec_read_env_opt_u64(env, gp, "TCP_KEEPALIVE_SECS"@),
        compression: spec_env_get(env, spec_var_name(gp, "COMPRESSION"@)),
        default_page_size: spec_read_env_opt_i32(env, gp, "DEFAULT_PAGE_SIZE"@),
    }
}

/// The full variable name, executable.
fn var_name(prefix: &str, name: &str) -> (r: String)
    ensures
        r@ == spec_var_name(prefix@, name@),
{
    String::from_str(prefix).concat("_").concat(name)
}

/// A string variable: the scoped value, else the default.
pub fn read_env_string(
    env: &EnvSnapshot,
    prefix: &str,
    global_prefix: Option<&str>,
    name: &str,
    default: &str,
) -> (r: String)
    ensures
        r@ == spec_read_env_string(env@, prefix@, spec_opt_view(global_prefix), name@, default@),
{
    let key = var_name(prefix, name);
    match env.get(key.as_str()) {
        Some(v) => v.clone(),
        None => match global_prefix {
            Some(g) => {
                let gkey = var_name(g, name);
                match env.get(gkey.as_str()) {
                    Some(v) => v.clone(),
                    None => default.to_owned(),
                }
            },
            None => default.to_owned(),
        },
    }
}

/// A `u16` variable; values that fail to parse fall through.
pub fn read_env_u16(
    env: &EnvSnapshot,
    prefix: &str,
    global_prefix: Option<&str>,
    name: &str,
    default: u16,
) -> (r: u16)
    ensures
        r == spec_read_env_u16(env@, prefix@, spec_opt_view(global_prefix), name@, default),
{
    let key = var_name(prefix, name);
    if let Some(v) = env.get(key.as_str()) {
        if let Some(p) = parse_u16_str(v.as_str()) {
            return p;
        }
    }
    if let Some(g) = global_prefix {
        let gkey = var_name(g, name);
        if let Some(v) = env.get(gkey.as_str()) {
            if let Some(p) = parse_u16_str(v.as_str()) {
                return p;
            }
        }
    }
    default
}

/// A boolean variable; values that fail to parse fall through.
pub fn read_env_bool(
    env: &EnvSnapshot,
    prefix: &str,
    global_prefix: Option<&str>,
    name: &str,
    default: bool,
) -> (r: bool)
    ensures
        r == spec_read_env_bool(env@, prefix@, spec_opt_view(global_prefix), name@, default),
{
    let key = var_name(prefix, name);
    if let Some(v) = env.get(key.as_str()) {
        if let Ok(p) = parse_bool(v.as_str()) {
            return p;
        }
    }
    if let Some(g) = global_prefix {
        let gkey = var_name(g, name);
        if let Some(v) = env.get(gkey.as_str()) {
            if let Ok(p) = parse_bool(v.as_str()) {
                return p;
            }
        }
    }
    default
}

/// An optional `u64` variable under the global prefix alone.
pub fn read_env_opt_u64(env: &EnvSnapshot, global_prefix: &str, name: &str) -> (r: Option<u64>)
    ensures
        r == spec_read_env_opt_u64(env@, global_prefix@, name@),
{
    let key = var_name(global_prefix, name);
    match env.get(key.as_str()) {
        Some(v) => parse_u64_str(v.as_str()),
        None => None,
    }
}

/// An optional `i32` variable under the global prefix alone.
pub fn read_env_opt_i32(env: &EnvSnapshot, global_prefix: &str, name: &str) -> (r: Option<i32>)
    ensures
        r == spec_read_env_opt_i32(env@, global_prefix@, name@),
{
    let key = var_name(global_prefix, name);
    match env.get(key.as_str()) {
        Some(v) => parse_i32_str(v.as_str()),
        None => None,
    }
}

/// An optional string variable under the global prefix alone.
pub fn read_env_opt_string(env: &EnvSnapshot, global_prefix: &str, name: &str) -> (r: Option<
    String,
>)
    ensures
        match r {
            Some(v) => spec_env_get(env@, spec_var_name(global_prefix@, name@)) == Some(v@),
            None => spec_env_get(env@, spec_var_name(global_prefix@, name@)) is None,
        },
{
    let key = var_name(global_prefix, name);
    match env.get(key.as_str()) {
        Some(v) => Some(v.clone()),
        None => None,
    }
}

/// An optional string variable with scoped-over-global lookup.
pub fn read_env_opt_string_scoped(
    env: &EnvSnapshot,
    prefix: &str,
    global_prefix: Option<&str>,
    name: &str,
) -> (r: Option<String>)
    ensures
        match r {
            Some(v) => spec_scoped_get(env@, prefix@, spec_opt_view(global_prefix), name@) == Some(
                v@,
            ),
            None => spec_scoped_get(env@, prefix@, spec_opt_view(global_prefix), name@) is None,
        },
{
    let key = var_name(prefix, name);
    if let Some(v) = env.get(key.as_str()) {
        return Some(v.clone());
    }
    match global_prefix {
        Some(g) => {
            let gkey = var_name(g, name);
            match env.get(gkey.as_str()) {
                Some(v) => Some(v.clone()),
                None => None,
            }
        },
        None => None,
    }
}

impl Default for DbEndpoint {
    fn default() -> (r: Self)
        ensures
            r@ == spec_default_endpoint(),
    {
        let r = DbEndpoint {
            host: "127.0.0.1".to_owned(),
            port: 9042,
            keyspace: "batch".to_owned(),
            datacenter: "asia-southeast2".to_owned(),
            rack: "asia-southeast2-a".to_owned(),
            username: "cassandra".to_owned(),
            password: "cassandra".to_owned(),
            use_tls: false,
            tls_ca_file: None,
            tls_insecure_skip_verify: false,
            replication_factor: Some(3),
            durable_writes: Some(true),
        };
        proof {
            assert(r@ =~= spec_default_endpoint());
        }
        r
    }
}

impl DbEndpoint {
    /// The built-in Passive endpoint.
    pub fn default_passive() -> (r: Self)
        ensures
            r@ == spec_default_passive(),
    {
        let mut r = DbEndpoint::default();
        r.port = 9043;
        r.rack = "asia-southeast2-b".to_owned();
        proof {
            assert(r@ =~= spec_default_passive());
        }
        r
    }

    /// The endpoint read from the environment under `prefix`, falling
    /// back to `global_prefix`, then to the defaults.
    pub fn from_env_with_defaults(
        env: &EnvSnapshot,
        prefix: &str,
        global_prefix: Option<&str>,
        defaults: &DbEndpoint,
    ) -> (r: DbEndpoint)
        ensures
            r@ == spec_endpoint_from_env(env@, prefix@, spec_opt_view(global_prefix), defaults@),
    {
        let tls_ca_file = match read_env_opt_string_scoped(env, prefix, global_prefix, "TLS_CA_FILE") {
            Some(v) => Some(v),
            None => match &defaults.tls_ca_file {
                Some(f) => Some(f.clone()),
                None => None,
            },
        };
        let r = DbEndpoint {
            host: read_env_string(env, prefix, global_prefix, "HOST", defaults.host.as_str()),
            port: read_env_u16(env, prefix, global_prefix, "PORT", defaults.port),
            keyspace: read_env_string(
                env,
                prefix,
                global_prefix,
                "KEYSPACE",
                defaults.keyspace.as_str(),
            ),
            datacenter: read_env_string(
                env,
                prefix,
                global_prefix,
                "DATACENTER",
                defaults.datacenter.as_str(),
            ),
            rack: read_env_string(env, prefix, global_prefix, "RACK", defaults.rack.as_str()),
            username: read_env_string(
                env,
                prefix,
                global_prefix,
                "USERNAME",
                defaults.username.as_str(),
            ),
            password: read_env_string(
                env,
                prefix,
                global_prefix,
                "PASSWORD",
                defaults.password.as_str(),
            ),
            use_tls: read_env_bool(env, prefix, global_prefix, "USE_TLS", defaults.use_tls),
            tls_ca_file,
            tls_insecure_skip_verify: read_env_bool(
                env,
                prefix,
                global_prefix,
                "TLS_INSECURE_SKIP_VERIFY",
                defaults.tls_insecure_skip_verify,
            ),
            replication_factor: defaults.replication_factor,
            durable_writes: defaults.durable_writes,
        };
        proof {
            assert(r@ =~= spec_endpoint_from_env(
                env@,
                prefix@,
                spec_opt_view(global_prefix),
                defaults@,
            ));
        }
        r
    }
}

impl Default for DriverConfig {
    fn default() -> (r: Self)
        ensures
            r@.request_timeout_ms is None,
            r@.connection_timeout_ms is None,
            r@.tcp_keepalive_secs is None,
            r@.compression is None,
            r@.default_page_size is None,
    {
        DriverConfig {
            request_timeout_ms: None,
            connection_timeout_ms: None,
            tcp_keepalive_secs: None,
            compression: None,
            default_page_size: None,
        }
    }
}

impl DriverConfig {
    /// The driver settings read under the global prefix.
    pub fn from_env(env: &EnvSnapshot, global_prefix: &str) -> (r: DriverConfig)
        ensures
            r@ == spec_driver_from_env(env@, global_prefix@),
    {
        let r = DriverConfig {
            request_timeout_ms: read_env_opt_u64(env, global_prefix, "REQUEST_TIMEOUT_MS"),
            connection_timeout_ms: read_env_opt_u64(env, global_prefix, "CONNECTION_TIMEOUT_MS"),
            tcp_keepalive_secs: read_env_opt_u64(env, global_prefix, "TCP_KEEPALIVE_SECS"),
            compression: read_env_opt_string(env, global_prefix, "COMPRESSION"),
            default_page_size: read_env_opt_i32(env, global_prefix, "DEFAULT_PAGE_SIZE"),
        };
        proof {
            assert(r@ =~= spec_driver_from_env(env@, global_prefix@));
        }
        r
    }
}

impl ServerConfig {
    /// The server settings read under `prefix`, if its bind address is
    /// set at all.
    pub fn from_env(env: &EnvSnapshot, prefix: &str) -> (r: Option<ServerConfig>)
        ensures
            match r {
                Some(sc) => spec_env_get(env@, spec_var_name(prefix@, "BIND_ADDR"@)) == Some(
                    sc.bind_addr@,
                ),
                None => spec_env_get(env@, spec_var_name(prefix@, "BIND_ADDR"@)) is None,
            },
    {
        match read_env_opt_string(env, prefix, "BIND_ADDR") {
            Some(ba) => Some(ServerConfig { bind_addr: ba }),
            None => None,
        }
    }
}

impl Default for AppConfig {
    fn default() -> (r: Self)
        ensures
            r.active@ == spec_default_endpoint(),
            r.passive@ == spec_default_passive(),
            r.driver@.request_timeout_ms is None,
            r.driver@.connection_timeout_ms is None,
            r.driver@.tcp_keepalive_secs is None,
            r.driver@.compression is None,
            r.driver@.default_page_size is None,
            r.server.bind_addr@ == "127.0.0.1:8080"@,
    {
        AppConfig {
            active: DbEndpoint::default(),
            passive: DbEndpoint::default_passive(),
            driver: DriverConfig::default(),
            server: ServerConfig { bind_addr: "127.0.0.1:8080".to_owned() },
        }
    }
}

impl AppConfig {
    /// The configuration read from an environment snapshot: endpoints
    /// under `ACTIVE_DB`/`PASSIVE_DB` with `DB` as the global prefix,
    /// driver settings under `DB`, and the bind address under `WEB`.
    pub fn from_env(env: &EnvSnapshot) -> (r: AppConfig)
        ensures
            r.active@ == spec_endpoint_from_env(env@, "ACTIVE_DB"@, Some("DB"@), spec_default_endpoint()),
            r.passive@ == spec_endpoint_from_env(env@, "PASSIVE_DB"@, Some("DB"@), spec_default_passive()),
            r.driver@ == spec_driver_from_env(env@, "DB"@),
            match spec_env_get(env@, spec_var_name("WEB"@, "BIND_ADDR"@)) {
                Some(v) => r.server.bind_addr@ == v,
                None => r.server.bind_addr@ == "127.0.0.1:8080"@,
            },
    {
        let defaults_active = DbEndpoint::default();
        let defaults_passive = DbEndpoint::default_passive();
        let active = DbEndpoint::from_env_with_defaults(env, "ACTIVE_DB", Some("DB"), &defaults_active);
        let passive = DbEndpoint::from_env_with_defaults(env, "PASSIVE_DB", Some("DB"), &defaults_passive);
        let driver = DriverConfig::from_env(env, "DB");
        let server = match ServerConfig::from_env(env, "WEB") {
            Some(sc) => sc,
            None => ServerConfig { bind_addr: "127.0.0.1:8080".to_owned() },
        };
        AppConfig { active, passive, driver, server }
    }
}

} // verus!
