//! Construction of the CQL statement texts the sidecar issues. The
//! statements are built here, character-exactly; issuing them against
//! a cluster happens outside the library.

use vstd::prelude::*;
use vstd::string::StrSliceExecFns;
use vstd::string::StringExecFns;

verus! {

/// Every `"` in `name` doubled.
pub open spec fn spec_escape_quotes(name: Seq<char>) -> Seq<char>
    decreases name.len(),
{
    if name.len() == 0 {
        Seq::empty()
    } else if name[0] == '"' {
        seq!['"', '"'] + spec_escape_quotes(name.drop_first())
    } else {
        seq![name[0]] + spec_escape_quotes(name.drop_first())
    }
}

/// A quoted CQL identifier: wrapped in double quotes, every embedded
/// double quote doubled. The only CQL substitution the sidecar permits.
pub open spec fn spec_quote_ident(name: Seq<char>) -> Seq<char> {
    seq!['"'] + spec_escape_quotes(name) + seq!['"']
}

/// The decimal digit character for `d`.
pub open spec fn spec_dec_digit(d: int) -> char {
    if d == 0 {
        '0'
    } else if d == 1 {
        '1'
    } else if d == 2 {
        '2'
    } else if d == 3 {
        '3'
    } else if d == 4 {
        '4'
    } else if d == 5 {
        '5'
    } else if d == 6 {
        '6'
    } else if d == 7 {
        '7'
    } else if d == 8 {
        '8'
    } else {
        '9'
    }
}

/// The decimal rendering of a non-negative number.
pub open spec fn spec_u64_dec(n: int) -> Seq<char>
    decreases n,
{
    if n < 10 {
        seq![spec_dec_digit(n)]
    } else {
        spec_u64_dec(n / 10) + seq![spec_dec_digit(n % 10)]
    }
}

/// The decimal digit as a one-character string slice.
fn dec_digit_str(d: u64) -> (r: &'static str)
    requires
        d < 10,
    ensures
        r@ == seq![spec_dec_digit(d as int)],
{
    proof {
        reveal_strlit("0");
        reveal_strlit("1");
        reveal_strlit("2");
        reveal_strlit("3");
        reveal_strlit("4");
        reveal_strlit("5");
        reveal_strlit("6");
        reveal_strlit("7");
        reveal_strlit("8");
        reveal_strlit("9");
    }
    let r = if d == 0 {
        "0"
    } else if d == 1 {
        "1"
    } else if d == 2 {
        "2"
    } else if d == 3 {
        "3"
    } else if d == 4 {
        "4"
    } else if d == 5 {
        "5"
    } else if d == 6 {
        "6"
    } else if d == 7 {
        "7"
    } else if d == 8 {
        "8"
    } else {
        "9"
    };
    proof {
        assert(r@ =~= seq![spec_dec_digit(d as int)]);
    }
    r
}

/// Renders a number in decimal.
pub fn u64_to_dec(n: u64) -> (r: String)
    ensures
        r@ == spec_u64_dec(n as int),
    decreases n,
{
    if n < 10 {
        dec_digit_str(n).to_owned()
    } else {
        let mut s = u64_to_dec(n / 10);
        s.append(dec_digit_str(n % 10));
        s
    }
}

/// Quotes a CQL identifier, doubling embedded double quotes.
#[verifier::loop_isolation(false)]
pub fn quote_ident(name: &str) -> (r: String)
    ensures
        r@ == spec_quote_ident(name@),
{
    let n = name.unicode_len();
    let mut out = String::from_str("\"");
    let mut i: usize = 0;
    proof {
        reveal_strlit("\"");
        reveal_strlit("\"\"");
        assert(name@.skip(0) =~= name@);
    }
    while i < n
        invariant
            0 <= i <= n,
            out@ + spec_escape_quotes(name@.skip(i as int)) == seq!['"'] + spec_escape_quotes(
                name@,
            ),
        decreases n - i,
    {
        let c = name.get_char(i);
        let ghost rest = name@.skip(i as int);
        proof {
            assert(rest[0] == name@[i as int]);
            assert(rest.drop_first() =~= name@.skip(i as int + 1));
        }
        if c == '"' {
            let ghost before = out@;
            out.append("\"\"");
            proof {
                assert(spec_escape_quotes(rest) == seq!['"', '"'] + spec_escape_quotes(
                    rest.drop_first(),
                ));
                assert(before + "\"\""@ + spec_escape_quotes(rest.drop_first()) =~= before + (
                seq!['"', '"'] + spec_escape_quotes(rest.drop_first())));
                assert("\"\""@ =~= seq!['"', '"']);
            }
        } else {
            let piece = name.substring_char(i, i + 1);
            let ghost before = out@;
            out.append(piece);
            proof {
                assert(piece@ =~= seq![name@[i as int]]);
                assert(spec_escape_quotes(rest) == seq![rest[0]] + spec_escape_quotes(
                    rest.drop_first(),
                ));
                assert(before + piece@ + spec_escape_quotes(rest.drop_first()) =~= before + (
                seq![rest[0]] + spec_escape_quotes(rest.drop_first())));
            }
        }
        i = i + 1;
    }
    proof {
        assert(spec_escape_quotes(name@.skip(n as int)) =~= Seq::<char>::empty());
        assert(out@ =~= out@ + spec_escape_quotes(name@.skip(n as int)));
    }
    out.append("\"");
    out
}

/// The watermark upsert statement for a keyspace: a single-row upsert
/// of the applied offset and heartbeat, with the keyspace quoted.
pub fn watermark_upsert_cql(keyspace: &str, last_id: u64, now_ms: u64) -> (r: String)
    ensures
        r@ == "INSERT INTO "@ + spec_quote_ident(keyspace@)
            + ".repl_watermark (id, last_applied_log_id, heartbeat_ms) VALUES (1, "@
            + spec_u64_dec(last_id as int) + ", "@ + spec_u64_dec(now_ms as int) + ")"@,
{
    let mut s = String::from_str("INSERT INTO ");
    s.append(quote_ident(keyspace).as_str());
    s.append(".repl_watermark (id, last_applied_log_id, heartbeat_ms) VALUES (1, ");
    s.append(u64_to_dec(last_id).as_str());
    s.append(", ");
    s.append(u64_to_dec(now_ms).as_str());
    s.append(")");
    s
}

/// The watermark table definition for a keyspace.
pub fn watermark_table_cql(keyspace: &str) -> (r: String)
    ensures
        r@ == "CREATE TABLE IF NOT EXISTS "@ + spec_quote_ident(keyspace@)
            + ".repl_watermark (id tinyint PRIMARY KEY, last_applied_log_id bigint, heartbeat_ms bigint)"@,
{
    let mut s = String::from_str("CREATE TABLE IF NOT EXISTS ");
    s.append(quote_ident(keyspace).as_str());
    s.append(
        ".repl_watermark (id tinyint PRIMARY KEY, last_applied_log_id bigint, heartbeat_ms bigint)",
    );
    s
}

/// The keyspace definition issued at startup: topology-aware
/// replication for the endpoint's datacenter, with its replication
/// factor and durable-writes choice substituted in.
pub fn keyspace_cql(keyspace: &str, datacenter: &str, rf: u32, durable: bool) -> (r: String)
    ensures
        r@ == "CREATE KEYSPACE IF NOT EXISTS "@ + spec_quote_ident(keyspace@)
            + " WITH replication = {'class': 'NetworkTopologyStrategy', '"@ + datacenter@ + "': "@
            + spec_u64_dec(rf as int) + "} AND durable_writes = "@ + (if durable {
            "true"@
        } else {
            "false"@
        }),
{
    let mut s = String::from_str("CREATE KEYSPACE IF NOT EXISTS ");
    s.append(quote_ident(keyspace).as_str());
    s.append(" WITH replication = {'class': 'NetworkTopologyStrategy', '");
    s.append(datacenter);
    s.append("': ");
    s.append(u64_to_dec(rf as u64).as_str());
    s.append("} AND durable_writes = ");
    if durable {
        s.append("true");
    } else {
        s.append("false");
    }
    s
}

} // verus!
