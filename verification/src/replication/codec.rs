//! The outbox frame codec.
//!
//! A frame is a 10-byte header (magic, version, payload length, all
//! little-endian) followed by the payload: creation time, target tag,
//! then the length-prefixed idempotency key, statement text and
//! parameter blobs. The spec-level model works on byte sequences; a
//! record's view is the byte image of its fields.

use vstd::prelude::*;
use vstd::bytes::*;
use vstd::slice::slice_subrange;
use vstd::utf8::encode_utf8;
use vstd::utf8::encode_utf8_valid_utf8;
use vstd::utf8::decode_utf8_encode_utf8;
use vstd::utf8::encode_utf8_decode_utf8;
use vstd::utf8::valid_utf8;

verus! {

broadcast use vstd::slice::axiom_spec_len;

/// Magic number opening every frame header.
pub const OB_MAGIC: u32 = 0x4E415944;

/// Frame format version.
pub const OB_VERSION: u16 = 1;

/// Header length in bytes: magic, version, payload length.
pub const HEADER_LEN: usize = 10;

/// Which cluster(s) a stored write is destined for.
#[derive(Debug, Copy, Clone, Eq, PartialEq, Structural)]
pub enum OutboxTarget {
    Active,
    Passive,
    Both,
}

/// A write queued in the outbox. Immutable once appended.
#[derive(Debug, Clone)]
pub struct OutboxRecord {
    pub idempotency_key: String,
    pub statement: String,
    pub params: Vec<Vec<u8>>,
    pub target: OutboxTarget,
    pub created_ms: u64,
}

/// The byte-level image of a record: key and statement as their UTF-8
/// bytes, parameters as byte sequences.
#[verifier::ext_equal]
pub struct RecView {
    pub key: Seq<u8>,
    pub stmt: Seq<u8>,
    pub params: Seq<Seq<u8>>,
    pub target: OutboxTarget,
    pub created_ms: u64,
}

impl View for OutboxRecord {
    type V = RecView;

    open spec fn view(&self) -> RecView {
        RecView {
            key: encode_utf8(self.idempotency_key@),
            stmt: encode_utf8(self.statement@),
            params: self.params@.map_values(|p: Vec<u8>| p@),
            target: self.target,
            created_ms: self.created_ms,
        }
    }
}

/// The wire tag of a target.
pub open spec fn spec_target_tag(t: OutboxTarget) -> u8 {
    match t {
        OutboxTarget::Active => 1,
        OutboxTarget::Passive => 2,
        OutboxTarget::Both => 3,
    }
}

/// The target of a wire tag, if the tag is known.
pub open spec fn spec_tag_target(b: u8) -> Option<OutboxTarget> {
    if b == 1 {
        Some(OutboxTarget::Active)
    } else if b == 2 {
        Some(OutboxTarget::Passive)
    } else if b == 3 {
        Some(OutboxTarget::Both)
    } else {
        None
    }
}

/// The encoding of the parameter list from index `k` on: each blob
/// prefixed by its little-endian `u32` length.
pub open spec fn spec_params_bytes_from(ps: Seq<Seq<u8>>, k: int) -> Seq<u8>
    decreases ps.len() - k,
{
    if k < 0 || k >= ps.len() {
        Seq::empty()
    } else {
        spec_u32_to_le_bytes(ps[k].len() as u32) + ps[k] + spec_params_bytes_from(ps, k + 1)
    }
}

/// The payload encoding of a record.
pub open spec fn spec_payload(r: RecView) -> Seq<u8> {
    spec_u64_to_le_bytes(r.created_ms) + seq![spec_target_tag(r.target)]
        + spec_u16_to_le_bytes(r.key.len() as u16) + r.key
        + spec_u32_to_le_bytes(r.stmt.len() as u32) + r.stmt
        + spec_u32_to_le_bytes(r.params.len() as u32) + spec_params_bytes_from(r.params, 0)
}

/// A full frame: header, then payload.
pub open spec fn spec_frame(r: RecView) -> Seq<u8> {
    spec_u32_to_le_bytes(OB_MAGIC) + spec_u16_to_le_bytes(OB_VERSION)
        + spec_u32_to_le_bytes(spec_payload(r).len() as u32) + spec_payload(r)
}

/// Well-formedness of a record image: every length fits its length
/// prefix, and the whole payload length fits the header's `u32`.
pub open spec fn rec_wf(r: RecView) -> bool {
    &&& r.key.len() <= u16::MAX
    &&& r.stmt.len() <= u32::MAX
    &&& r.params.len() <= u32::MAX
    &&& (forall|i: int| 0 <= i < r.params.len() ==> #[trigger] r.params[i].len() <= u32::MAX)
    &&& spec_payload(r).len() <= u32::MAX
}

/// Parses `n` length-prefixed blobs of `b` starting at `start`.
/// Trailing bytes after the `n`-th blob are ignored.
pub open spec fn spec_parse_params(b: Seq<u8>, start: int, n: nat) -> Option<Seq<Seq<u8>>>
    decreases n,
{
    if n == 0 {
        Some(Seq::empty())
    } else if start < 0 || b.len() < start + 4 {
        None
    } else {
        let plen = spec_u32_from_le_bytes(b.subrange(start, start + 4)) as int;
        if b.len() < start + 4 + plen {
            None
        } else {
            match spec_parse_params(b, start + 4 + plen, (n - 1) as nat) {
                Some(rest) => Some(seq![b.subrange(start + 4, start + 4 + plen)] + rest),
                None => None,
            }
        }
    }
}

/// Decodes a payload. `None` exactly on a truncated field, an unknown
/// target tag, or key or statement bytes that are not UTF-8; trailing
/// bytes after the parameter list are ignored.
pub open spec fn spec_decode_payload(b: Seq<u8>) -> Option<RecView> {
    if b.len() < 9 {
        None
    } else {
        let created_ms = spec_u64_from_le_bytes(b.subrange(0, 8));
        match spec_tag_target(b[8]) {
            None => None,
            Some(target) => {
                if b.len() < 11 {
                    None
                } else {
                    let klen = spec_u16_from_le_bytes(b.subrange(9, 11)) as int;
                    if b.len() < 11 + klen {
                        None
                    } else {
                        let key = b.subrange(11, 11 + klen);
                        if !valid_utf8(key) {
                            None
                        } else {
                            let soff = 11 + klen;
                            if b.len() < soff + 4 {
                                None
                            } else {
                                let slen = spec_u32_from_le_bytes(b.subrange(soff, soff + 4)) as int;
                                if b.len() < soff + 4 + slen {
                                    None
                                } else {
                                    let stmt = b.subrange(soff + 4, soff + 4 + slen);
                                    if !valid_utf8(stmt) {
                                        None
                                    } else {
                                        let poff = soff + 4 + slen;
                                        if b.len() < poff + 4 {
                                            None
                                        } else {
                                            let pcount = spec_u32_from_le_bytes(
                                                b.subrange(poff, poff + 4),
                                            );
                                            match spec_parse_params(b, poff + 4, pcount as nat) {
                                                None => None,
                                                Some(params) => Some(
                                                    RecView { key, stmt, params, target, created_ms },
                                                ),
                                            }
                                        }
                                    }
                                }
                            }
                        }
                    }
                }
            },
        }
    }
}

/// Relies on `String::from_utf8`: it succeeds exactly on UTF-8 input,
/// and the returned string's UTF-8 bytes are that input.
#[verifier::external_body]
fn string_from_utf8(bytes: Vec<u8>) -> (r: Option<String>)
    ensures
        match r {
            Some(s) => encode_utf8(s@) == bytes@,
            None => !valid_utf8(bytes@),
        },
{
    String::from_utf8(bytes).ok()
}

impl OutboxRecord {
    /// A parameterless record with an unassigned creation time.
    pub fn new_simple(key: &str, cql: &str, target: OutboxTarget) -> (r: Self)
        ensures
            r.idempotency_key@ == key@,
            r.statement@ == cql@,
            r.params@.len() == 0,
            r.target == target,
            r.created_ms == 0,
    {
        OutboxRecord {
            idempotency_key: key.to_owned(),
            statement: cql.to_owned(),
            params: Vec::new(),
            target,
            created_ms: 0,
        }
    }

    /// Whether every field of the record fits its length prefix.
    #[verifier::loop_isolation(false)]
    pub fn check_wf(&self) -> (b: bool)
        ensures
            b == rec_wf(self@),
    {
        proof {
            lemma_auto_spec_u16_to_from_le_bytes();
            lemma_auto_spec_u32_to_from_le_bytes();
            lemma_auto_spec_u64_to_from_le_bytes();
        }
        let key_len = self.idempotency_key.as_str().as_bytes().len();
        let stmt_len = self.statement.as_str().as_bytes().len();
        if key_len > u16::MAX as usize {
            return false;
        }
        if stmt_len > u32::MAX as usize {
            return false;
        }
        if self.params.len() > u32::MAX as usize {
            return false;
        }
        // 8 created_ms + 1 target + 2 key prefix + 4 statement prefix
        // + 4 parameter count, then the variable fields.
        let mut total: u64 = 19 + key_len as u64 + stmt_len as u64;
        if total > u32::MAX as u64 {
            return false;
        }
        let ghost ps = self@.params;
        let mut i: usize = 0;
        while i < self.params.len()
            invariant
                0 <= i <= self.params.len(),
                ps == self@.params,
                ps.len() == self.params.len(),
                forall|j: int| 0 <= j < i ==> #[trigger] ps[j].len() <= u32::MAX,
                total as int == 19 + self@.key.len() + self@.stmt.len()
                    + (spec_params_bytes_from(ps, 0).len() - spec_params_bytes_from(ps, i as int).len()),
                total <= u32::MAX,
            decreases self.params.len() - i,
        {
            let p_len = self.params[i].len();
            if p_len > u32::MAX as usize {
                return false;
            }
            proof {
                lemma_auto_spec_u32_to_from_le_bytes();
                lemma_params_bytes_from_len(ps, i as int);
            }
            let add: u64 = 4 + p_len as u64;
            if u32::MAX as u64 - total < add {
                return false;
            }
            total = total + add;
            i = i + 1;
        }
        proof {
            assert(spec_params_bytes_from(ps, i as int).len() == 0);
        }
        true
    }

    /// Encodes the record's payload.
    #[verifier::loop_isolation(false)]
    pub fn encode(&self) -> (buf: Vec<u8>)
        requires
            rec_wf(self@),
        ensures
            buf@ == spec_payload(self@),
    {
        proof {
            lemma_auto_spec_u16_to_from_le_bytes();
            lemma_auto_spec_u32_to_from_le_bytes();
            lemma_auto_spec_u64_to_from_le_bytes();
        }
        let mut buf: Vec<u8> = Vec::new();
        let ms = u64_to_le_bytes(self.created_ms);
        buf.extend_from_slice(ms.as_slice());
        let t: u8 = match self.target {
            OutboxTarget::Active => 1,
            OutboxTarget::Passive => 2,
            OutboxTarget::Both => 3,
        };
        buf.push(t);
        let key_bytes: &[u8] = self.idempotency_key.as_str().as_bytes();
        let kl = u16_to_le_bytes(key_bytes.len() as u16);
        buf.extend_from_slice(kl.as_slice());
        buf.extend_from_slice(key_bytes);
        let stmt_bytes: &[u8] = self.statement.as_str().as_bytes();
        let sl = u32_to_le_bytes(stmt_bytes.len() as u32);
        buf.extend_from_slice(sl.as_slice());
        buf.extend_from_slice(stmt_bytes);
        let pc = u32_to_le_bytes(self.params.len() as u32);
        buf.extend_from_slice(pc.as_slice());
        let ghost head = spec_u64_to_le_bytes(self@.created_ms) + seq![spec_target_tag(self@.target)]
            + spec_u16_to_le_bytes(self@.key.len() as u16) + self@.key
            + spec_u32_to_le_bytes(self@.stmt.len() as u32) + self@.stmt
            + spec_u32_to_le_bytes(self@.params.len() as u32);
        assert(buf@ =~= head);
        let ghost ps = self@.params;
        let mut i: usize = 0;
        while i < self.params.len()
            invariant
                0 <= i <= self.params.len(),
                ps == self@.params,
                ps.len() == self.params.len(),
                buf@ + spec_params_bytes_from(ps, i as int) =~= head + spec_params_bytes_from(ps, 0),
            decreases self.params.len() - i,
        {
            proof {
                lemma_auto_spec_u32_to_from_le_bytes();
            }
            let p = &self.params[i];
            let pl = u32_to_le_bytes(p.len() as u32);
            let ghost buf_before = buf@;
            buf.extend_from_slice(pl.as_slice());
            buf.extend_from_slice(p.as_slice());
            proof {
                assert(ps[i as int] == p@);
                assert(spec_params_bytes_from(ps, i as int) == spec_u32_to_le_bytes(
                    ps[i as int].len() as u32,
                ) + ps[i as int] + spec_params_bytes_from(ps, i as int + 1));
                assert(buf@ + spec_params_bytes_from(ps, i as int + 1) =~= buf_before
                    + spec_params_bytes_from(ps, i as int));
            }
            i = i + 1;
        }
        proof {
            assert(spec_params_bytes_from(ps, i as int) =~= Seq::empty());
            assert(buf@ =~= buf@ + spec_params_bytes_from(ps, i as int));
            assert(spec_payload(self@) == head + spec_params_bytes_from(ps, 0));
        }
        buf
    }

    /// Decodes a payload, the inverse of [`Self::encode`] on well-formed
    /// input. Returns `None` exactly when the spec-level parse fails.
    #[verifier::loop_isolation(false)]
    pub fn decode(payload: &[u8]) -> (r: Option<OutboxRecord>)
        ensures
            match r {
                Some(rec) => spec_decode_payload(payload@) == Some(rec@),
                None => spec_decode_payload(payload@) is None,
            },
    {
        proof {
            lemma_auto_spec_u16_to_from_le_bytes();
            lemma_auto_spec_u32_to_from_le_bytes();
            lemma_auto_spec_u64_to_from_le_bytes();
        }
        let n = payload.len();
        if n < 9 {
            return None;
        }
        let created_ms = u64_from_le_bytes(slice_subrange(payload, 0, 8));
        let tag = *vstd::slice::slice_index_get(payload, 8);
        let target = if tag == 1 {
            OutboxTarget::Active
        } else if tag == 2 {
            OutboxTarget::Passive
        } else if tag == 3 {
            OutboxTarget::Both
        } else {
            return None;
        };
        if n < 11 {
            return None;
        }
        let klen = u16_from_le_bytes(slice_subrange(payload, 9, 11)) as usize;
        if n - 11 < klen {
            return None;
        }
        let key_bytes = vstd::slice::slice_to_vec(slice_subrange(payload, 11, 11 + klen));
        let key = match string_from_utf8(key_bytes) {
            Some(s) => s,
            None => {
                return None;
            },
        };
        let soff = 11 + klen;
        if n - soff < 4 {
            return None;
        }
        let slen = u32_from_le_bytes(slice_subrange(payload, soff, soff + 4)) as usize;
        if n - soff - 4 < slen {
            return None;
        }
        let stmt_bytes = vstd::slice::slice_to_vec(slice_subrange(payload, soff + 4, soff + 4 + slen));
        let stmt = match string_from_utf8(stmt_bytes) {
            Some(s) => s,
            None => {
                return None;
            },
        };
        let poff = soff + 4 + slen;
        if n - poff < 4 {
            return None;
        }
        let pcount = u32_from_le_bytes(slice_subrange(payload, poff, poff + 4));
        let ghost pc = pcount as nat;
        let mut params: Vec<Vec<u8>> = Vec::new();
        let mut off = poff + 4;
        let mut i: usize = 0;
        while i < pcount as usize
            invariant
                0 <= i <= pcount as usize,
                poff + 4 <= off <= n,
                n == payload.len(),
                pc == pcount as nat,
                params@.len() == i,
                spec_parse_params(payload@, poff as int + 4, pc) == (match spec_parse_params(
                    payload@,
                    off as int,
                    (pc - i) as nat,
                ) {
                    Some(rest) => Some(params@.map_values(|p: Vec<u8>| p@) + rest),
                    None => None::<Seq<Seq<u8>>>,
                }),
            decreases pcount as usize - i,
        {
            proof {
                lemma_auto_spec_u32_to_from_le_bytes();
            }
            if n - off < 4 {
                return None;
            }
            let plen = u32_from_le_bytes(slice_subrange(payload, off, off + 4)) as usize;
            if n - off - 4 < plen {
                return None;
            }
            let blob = vstd::slice::slice_to_vec(slice_subrange(payload, off + 4, off + 4 + plen));
            let ghost params_before = params@;
            params.push(blob);
            proof {
                let blob_seq = payload@.subrange(off as int + 4, off as int + 4 + plen as int);
                assert(params@.map_values(|p: Vec<u8>| p@) =~= params_before.map_values(
                    |p: Vec<u8>| p@,
                ) + seq![blob_seq]);
                match spec_parse_params(payload@, off as int + 4 + plen as int, (pc - (i + 1)) as nat) {
                    Some(rest2) => {
                        assert(params_before.map_values(|p: Vec<u8>| p@) + (seq![blob_seq] + rest2)
                            =~= params@.map_values(|p: Vec<u8>| p@) + rest2);
                    },
                    None => {},
                }
            }
            off = off + 4 + plen;
            i = i + 1;
        }
        let rec = OutboxRecord { idempotency_key: key, statement: stmt, params, target, created_ms };
        proof {
            assert(spec_parse_params(payload@, off as int, 0nat) == Some(Seq::<Seq<u8>>::empty()));
            assert(rec@.params =~= params@.map_values(|p: Vec<u8>| p@) + Seq::<Seq<u8>>::empty());
            assert(rec@.key == payload@.subrange(11, 11 + klen as int));
            assert(rec@.stmt == payload@.subrange(
                soff as int + 4,
                soff as int + 4 + slen as int,
            ));
            broadcast use encode_utf8_valid_utf8;

            assert(spec_decode_payload(payload@) matches Some(v) && v =~= rec@);
        }
        Some(rec)
    }
}

/// Unfolds one step of the parameter-suffix length.
proof fn lemma_params_bytes_from_len(ps: Seq<Seq<u8>>, k: int)
    requires
        0 <= k < ps.len(),
    ensures
        spec_params_bytes_from(ps, k).len() == 4 + ps[k].len() + spec_params_bytes_from(
            ps,
            k + 1,
        ).len(),
{
    lemma_auto_spec_u32_to_from_le_bytes();
}

/// A region of `b` equal to `s` has every subrange of `s` at the
/// corresponding position.
proof fn lemma_subrange_of_region(b: Seq<u8>, start: int, s: Seq<u8>, a: int, c: int)
    requires
        0 <= start,
        start + s.len() <= b.len(),
        b.subrange(start, start + s.len() as int) == s,
        0 <= a <= c <= s.len(),
    ensures
        b.subrange(start + a, start + c) == s.subrange(a, c),
{
    assert(b.subrange(start + a, start + c) =~= s.subrange(a, c)) by {
        assert forall|j: int| 0 <= j < c - a implies #[trigger] b.subrange(start + a, start + c)[j]
            == s.subrange(a, c)[j] by {
            assert(b.subrange(start, start + s.len() as int)[a + j] == s[a + j]);
        }
    }
}

/// An encoded parameter list parses back to the parameters it encodes.
proof fn lemma_parse_params_roundtrip(b: Seq<u8>, start: int, ps: Seq<Seq<u8>>, k: int)
    requires
        0 <= k <= ps.len(),
        forall|i: int| 0 <= i < ps.len() ==> #[trigger] ps[i].len() <= u32::MAX,
        0 <= start,
        start + spec_params_bytes_from(ps, k).len() <= b.len(),
        b.subrange(start, start + spec_params_bytes_from(ps, k).len() as int)
            == spec_params_bytes_from(ps, k),
    ensures
        spec_parse_params(b, start, (ps.len() - k) as nat) == Some(ps.skip(k)),
    decreases ps.len() - k,
{
    lemma_auto_spec_u32_to_from_le_bytes();
    if k == ps.len() {
        assert(ps.skip(k) =~= Seq::<Seq<u8>>::empty());
    } else {
        let s = spec_params_bytes_from(ps, k);
        let l4 = spec_u32_to_le_bytes(ps[k].len() as u32);
        let rest = spec_params_bytes_from(ps, k + 1);
        let plen = ps[k].len() as int;
        lemma_params_bytes_from_len(ps, k);
        lemma_subrange_of_region(b, start, s, 0, 4);
        assert(s.subrange(0, 4) =~= l4);
        lemma_subrange_of_region(b, start, s, 4, 4 + plen);
        assert(s.subrange(4, 4 + plen) =~= ps[k]);
        lemma_subrange_of_region(b, start, s, 4 + plen, s.len() as int);
        assert(s.subrange(4 + plen, s.len() as int) =~= rest);
        lemma_parse_params_roundtrip(b, start + 4 + plen, ps, k + 1);
        assert(seq![b.subrange(start + 4, start + 4 + plen)] + ps.skip(k + 1) =~= ps.skip(k));
    }
}

/// An encoded payload decodes back to its record image: the round-trip
/// law of the codec.
pub proof fn lemma_payload_roundtrip(r: RecView)
    requires
        rec_wf(r),
        valid_utf8(r.key),
        valid_utf8(r.stmt),
    ensures
        spec_decode_payload(spec_payload(r)) == Some(r),
{
    lemma_auto_spec_u16_to_from_le_bytes();
    lemma_auto_spec_u32_to_from_le_bytes();
    lemma_auto_spec_u64_to_from_le_bytes();
    let b = spec_payload(r);
    let klen = r.key.len() as int;
    let slen = r.stmt.len() as int;
    let soff = 11 + klen;
    let poff = soff + 4 + slen;
    let pb = spec_params_bytes_from(r.params, 0);
    assert(b.len() == 19 + klen + slen + pb.len());
    assert(b.subrange(0, 8) =~= spec_u64_to_le_bytes(r.created_ms));
    assert(b[8] == spec_target_tag(r.target));
    assert(spec_tag_target(spec_target_tag(r.target)) == Some(r.target));
    assert(b.subrange(9, 11) =~= spec_u16_to_le_bytes(r.key.len() as u16));
    assert(b.subrange(11, 11 + klen) =~= r.key);
    assert(b.subrange(soff, soff + 4) =~= spec_u32_to_le_bytes(r.stmt.len() as u32));
    assert(b.subrange(soff + 4, soff + 4 + slen) =~= r.stmt);
    assert(b.subrange(poff, poff + 4) =~= spec_u32_to_le_bytes(r.params.len() as u32));
    assert(b.subrange(poff + 4, poff + 4 + pb.len() as int) =~= pb);
    lemma_parse_params_roundtrip(b, poff + 4, r.params, 0);
    assert(r.params.skip(0) =~= r.params);
    assert(spec_decode_payload(b) matches Some(v) && v =~= r);
}

/// Parses the frame starting at `offset`: header checks first, then the
/// payload, exactly as the tolerant reader proceeds.
pub open spec fn spec_parse_frame_at(log: Seq<u8>, offset: int) -> Option<(int, RecView)> {
    if offset < 0 || log.len() < offset + 10 {
        None
    } else {
        let magic = spec_u32_from_le_bytes(log.subrange(offset, offset + 4));
        let version = spec_u16_from_le_bytes(log.subrange(offset + 4, offset + 6));
        let plen = spec_u32_from_le_bytes(log.subrange(offset + 6, offset + 10)) as int;
        if magic != OB_MAGIC || version != OB_VERSION {
            None
        } else if log.len() < offset + 10 + plen {
            None
        } else {
            match spec_decode_payload(log.subrange(offset + 10, offset + 10 + plen)) {
                None => None,
                Some(rec) => Some((offset + 10 + plen, rec)),
            }
        }
    }
}

/// Parses up to `max` frames from `offset`, stopping at the first
/// position that does not hold a complete well-formed frame. Each
/// element carries the frame's start, its end, and the record.
pub open spec fn spec_parse_frames(log: Seq<u8>, offset: int, max: nat) -> Seq<(int, int, RecView)>
    decreases max,
{
    if max == 0 {
        Seq::empty()
    } else {
        match spec_parse_frame_at(log, offset) {
            None => Seq::empty(),
            Some((end, rec)) => seq![(offset, end, rec)] + spec_parse_frames(
                log,
                end,
                (max - 1) as nat,
            ),
        }
    }
}

/// The position after the parsed frames: `offset` if none parsed.
pub open spec fn spec_parse_end(log: Seq<u8>, offset: int, max: nat) -> int {
    let fs = spec_parse_frames(log, offset, max);
    if fs.len() == 0 {
        offset
    } else {
        fs[fs.len() - 1].1
    }
}

/// Where the `k`-th frame of a parse starting at `offset` begins: at
/// `offset` for the first, at the previous frame's end otherwise.
pub open spec fn frame_start(fs: Seq<(int, int, RecView)>, offset: int, k: int) -> int {
    if k == 0 {
        offset
    } else {
        fs[k - 1].1
    }
}

/// The frames of a parse chain: each starts where the previous ended,
/// parses at its position, and spans at least a header within the log.
pub open spec fn frames_chained(log: Seq<u8>, offset: int, fs: Seq<(int, int, RecView)>) -> bool {
    forall|k: int|
        #![trigger fs[k]]
        0 <= k < fs.len() ==> {
            &&& fs[k].0 == frame_start(fs, offset, k)
            &&& spec_parse_frame_at(log, fs[k].0) == Some((fs[k].1, fs[k].2))
            &&& fs[k].0 + 10 <= fs[k].1 <= log.len()
        }
}

/// Every parse is a chain, and parses at most `max` frames.
pub proof fn lemma_frames_chain(log: Seq<u8>, offset: int, max: nat)
    ensures
        spec_parse_frames(log, offset, max).len() <= max,
        frames_chained(log, offset, spec_parse_frames(log, offset, max)),
    decreases max,
{
    if max > 0 {
        match spec_parse_frame_at(log, offset) {
            None => {},
            Some((end, rec)) => {
                let tail = spec_parse_frames(log, end, (max - 1) as nat);
                lemma_frames_chain(log, end, (max - 1) as nat);
                let fs = spec_parse_frames(log, offset, max);
                assert forall|k: int| 0 <= k < fs.len() implies {
                    &&& (#[trigger] fs[k]).0 == frame_start(fs, offset, k)
                    &&& spec_parse_frame_at(log, fs[k].0) == Some((fs[k].1, fs[k].2))
                    &&& fs[k].0 + 10 <= fs[k].1 <= log.len()
                } by {
                    if k > 0 {
                        assert(fs[k] == tail[k - 1]);
                        assert(tail[k - 1].0 == frame_start(tail, end, k - 1));
                    }
                }
            },
        }
    }
}

/// A larger parse budget only ever extends the parsed frames.
pub proof fn lemma_frames_budget(log: Seq<u8>, offset: int, m1: nat, m2: nat)
    requires
        m1 <= m2,
    ensures
        spec_parse_frames(log, offset, m1) == spec_parse_frames(log, offset, m2).take(
            vstd::math::min(m1 as int, spec_parse_frames(log, offset, m2).len() as int),
        ),
        spec_parse_frames(log, offset, m2).len() <= m1 ==> spec_parse_frames(log, offset, m1)
            == spec_parse_frames(log, offset, m2),
    decreases m1,
{
    let f1 = spec_parse_frames(log, offset, m1);
    let f2 = spec_parse_frames(log, offset, m2);
    lemma_frames_chain(log, offset, m1);
    lemma_frames_chain(log, offset, m2);
    if m1 == 0 {
        assert(f1 =~= f2.take(0));
    } else {
        match spec_parse_frame_at(log, offset) {
            None => {
                assert(f1 =~= f2.take(vstd::math::min(m1 as int, f2.len() as int)));
            },
            Some((end, rec)) => {
                let g1 = spec_parse_frames(log, end, (m1 - 1) as nat);
                let g2 = spec_parse_frames(log, end, (m2 - 1) as nat);
                lemma_frames_budget(log, end, (m1 - 1) as nat, (m2 - 1) as nat);
                assert(f1 =~= f2.take(vstd::math::min(m1 as int, f2.len() as int)));
                if f2.len() <= m1 {
                    assert(f1 =~= f2);
                }
            },
        }
    }
}

/// Resuming the parse after the first `k` frames yields the rest.
pub proof fn lemma_frames_skip(log: Seq<u8>, offset: int, max: nat, k: nat)
    requires
        k <= spec_parse_frames(log, offset, max).len(),
    ensures
        spec_parse_frames(
            log,
            frame_start(spec_parse_frames(log, offset, max), offset, k as int),
            (max - k) as nat,
        ) == spec_parse_frames(log, offset, max).skip(k as int),
    decreases k,
{
    let fs = spec_parse_frames(log, offset, max);
    lemma_frames_chain(log, offset, max);
    if k == 0 {
        assert(fs.skip(0) =~= fs);
    } else {
        match spec_parse_frame_at(log, offset) {
            None => {},
            Some((end, rec)) => {
                let tail = spec_parse_frames(log, end, (max - 1) as nat);
                lemma_frames_skip(log, end, (max - 1) as nat, (k - 1) as nat);
                assert(frame_start(tail, end, k as int - 1) == frame_start(fs, offset, k as int));
                assert(tail.skip(k as int - 1) =~= fs.skip(k as int));
            },
        }
    }
}

/// Torn-tail tolerance: parsing a truncated log yields a prefix of the
/// frames parsed from the full log, and never an error.
pub proof fn lemma_truncate_prefix(log: Seq<u8>, cut: int, offset: int, max: nat)
    requires
        0 <= cut <= log.len(),
    ensures
        spec_parse_frames(log.take(cut), offset, max).len() <= spec_parse_frames(
            log,
            offset,
            max,
        ).len(),
        spec_parse_frames(log.take(cut), offset, max) == spec_parse_frames(log, offset, max).take(
            spec_parse_frames(log.take(cut), offset, max).len() as int,
        ),
    decreases max,
{
    let tl = log.take(cut);
    let cutfs = spec_parse_frames(tl, offset, max);
    let full = spec_parse_frames(log, offset, max);
    if max == 0 {
        assert(cutfs =~= full.take(0));
    } else {
        match spec_parse_frame_at(tl, offset) {
            None => {
                assert(cutfs =~= full.take(0));
            },
            Some((end, rec)) => {
                let plen = spec_u32_from_le_bytes(tl.subrange(offset + 6, offset + 10)) as int;
                assert(offset + 10 + plen <= cut);
                assert(tl.subrange(offset, offset + 4) =~= log.subrange(offset, offset + 4));
                assert(tl.subrange(offset + 4, offset + 6) =~= log.subrange(offset + 4, offset + 6));
                assert(tl.subrange(offset + 6, offset + 10) =~= log.subrange(
                    offset + 6,
                    offset + 10,
                ));
                assert(tl.subrange(offset + 10, offset + 10 + plen) =~= log.subrange(
                    offset + 10,
                    offset + 10 + plen,
                ));
                assert(spec_parse_frame_at(log, offset) == Some((end, rec)));
                lemma_truncate_prefix(log, cut, end, (max - 1) as nat);
                let ct = spec_parse_frames(tl, end, (max - 1) as nat);
                let ft = spec_parse_frames(log, end, (max - 1) as nat);
                assert(cutfs == seq![(offset, end, rec)] + ct);
                assert(full == seq![(offset, end, rec)] + ft);
                assert(ct == ft.take(ct.len() as int));
                assert(cutfs =~= full.take(cutfs.len() as int));
            },
        }
    }
}

/// A well-formed frame lying in a log parses back to its record.
pub proof fn lemma_frame_at_roundtrip(log: Seq<u8>, off: int, r: RecView)
    requires
        rec_wf(r),
        valid_utf8(r.key),
        valid_utf8(r.stmt),
        0 <= off,
        off + spec_frame(r).len() <= log.len(),
        log.subrange(off, off + spec_frame(r).len() as int) == spec_frame(r),
    ensures
        spec_parse_frame_at(log, off) == Some((off + spec_frame(r).len() as int, r)),
{
    lemma_auto_spec_u16_to_from_le_bytes();
    lemma_auto_spec_u32_to_from_le_bytes();
    let f = spec_frame(r);
    let p = spec_payload(r);
    assert(f.len() == 10 + p.len());
    lemma_subrange_of_region(log, off, f, 0, 4);
    assert(f.subrange(0, 4) =~= spec_u32_to_le_bytes(OB_MAGIC));
    lemma_subrange_of_region(log, off, f, 4, 6);
    assert(f.subrange(4, 6) =~= spec_u16_to_le_bytes(OB_VERSION));
    lemma_subrange_of_region(log, off, f, 6, 10);
    assert(f.subrange(6, 10) =~= spec_u32_to_le_bytes(p.len() as u32));
    lemma_subrange_of_region(log, off, f, 10, f.len() as int);
    assert(f.subrange(10, f.len() as int) =~= p);
    lemma_payload_roundtrip(r);
}

/// One frame alone in the log is parsed back whole: a written header
/// and payload yield exactly their record.
pub proof fn lemma_read_single_frame(r: RecView)
    requires
        rec_wf(r),
        valid_utf8(r.key),
        valid_utf8(r.stmt),
    ensures
        spec_parse_frames(spec_frame(r), 0, 1) == seq![
            (0int, spec_frame(r).len() as int, r),
        ],
{
    let f = spec_frame(r);
    assert(f.subrange(0, f.len() as int) =~= f);
    lemma_frame_at_roundtrip(f, 0, r);
    assert(spec_parse_frame_at(f, 0) == Some((f.len() as int, r)));
    assert(spec_parse_frames(f, 0, 1) == seq![(0int, f.len() as int, r)] + spec_parse_frames(
        f,
        f.len() as int,
        0,
    ));
    assert(spec_parse_frames(f, f.len() as int, 0) =~= Seq::<(int, int, RecView)>::empty());
    assert(spec_parse_frames(f, 0, 1) =~= seq![(0int, f.len() as int, r)]);
}

/// Frame durability: once a full parse reaches the end of the log, an
/// appended frame is parsed from the grown log, whatever bytes follow
/// it — in particular after truncation anywhere past its end.
#[verifier::rlimit(40)]
pub proof fn lemma_append_durable(log: Seq<u8>, r: RecView, extra: Seq<u8>, max: nat)
    requires
        rec_wf(r),
        valid_utf8(r.key),
        valid_utf8(r.stmt),
        spec_parse_end(log, 0, max) == log.len(),
    ensures
        ({
            let log2 = log + spec_frame(r) + extra;
            let k = spec_parse_frames(log, 0, max).len() as int;
            let fs2 = spec_parse_frames(log2, 0, (max + 1) as nat);
            &&& fs2.len() > k
            &&& fs2[k] == (log.len() as int, log.len() + spec_frame(r).len() as int, r)
        }),
{
    let log2 = log + spec_frame(r) + extra;
    let fs = spec_parse_frames(log, 0, max);
    let k = fs.len() as int;
    let fs_more = spec_parse_frames(log, 0, (max + 1) as nat);
    lemma_frames_chain(log, 0, max);
    lemma_frames_chain(log, 0, (max + 1) as nat);
    // With one more budget the parse of `log` cannot grow: the next
    // attempt would start at the log's end, where no header fits.
    lemma_frames_budget(log, 0, max, (max + 1) as nat);
    if fs_more.len() > fs.len() {
        assert(fs == fs_more.take(vstd::math::min(max as int, fs_more.len() as int)));
        assert(fs_more[k].0 == frame_start(fs_more, 0, k));
        assert(frame_start(fs_more, 0, k) == log.len());
        assert(spec_parse_frame_at(log, log.len() as int) is None);
        assert(false);
    }
    assert(fs_more == fs);
    // The truncation of `log2` at the old length is `log` itself, so the
    // old frames are a prefix of the new parse.
    assert(log2.take(log.len() as int) =~= log);
    lemma_truncate_prefix(log2, log.len() as int, 0, (max + 1) as nat);
    let fs2 = spec_parse_frames(log2, 0, (max + 1) as nat);
    assert(spec_parse_frames(log2.take(log.len() as int), 0, (max + 1) as nat) == fs_more);
    assert(fs == fs2.take(k));
    assert(fs2.len() >= k);
    // Resume the parse at the append position: the new frame is there.
    lemma_frames_skip(log2, 0, (max + 1) as nat, k as nat);
    lemma_frames_chain(log2, 0, (max + 1) as nat);
    assert(frame_start(fs2, 0, k) == log.len()) by {
        if k > 0 {
            assert(fs2[k - 1] == fs[k - 1]);
        }
    }
    assert(log2.subrange(log.len() as int, log.len() + spec_frame(r).len() as int) =~= spec_frame(
        r,
    ));
    lemma_frame_at_roundtrip(log2, log.len() as int, r);
    let rest = spec_parse_frames(log2, log.len() as int, ((max + 1) - k) as nat);
    assert(rest == fs2.skip(k));
    assert(rest.len() > 0);
    assert(rest[0] == (log.len() as int, log.len() + spec_frame(r).len() as int, r));
    assert(fs2[k] == rest[0]);
}

/// Each parsed frame ends at least a header's length past the previous
/// one: the `k`-th frame ends at `offset + 10(k+1)` or later.
pub proof fn lemma_frame_end_lower(log: Seq<u8>, offset: int, max: nat, k: int)
    requires
        0 <= k < spec_parse_frames(log, offset, max).len(),
    ensures
        spec_parse_frames(log, offset, max)[k].1 >= offset + 10 * (k + 1),
    decreases k,
{
    lemma_frames_chain(log, offset, max);
    let fs = spec_parse_frames(log, offset, max);
    if k == 0 {
        assert(fs[0].0 == offset);
    } else {
        lemma_frame_end_lower(log, offset, max, k - 1);
        assert(fs[k].0 == frame_start(fs, offset, k));
    }
}

/// At most a tenth of the bytes behind `offset` can hold frames.
pub proof fn lemma_frames_count(log: Seq<u8>, offset: int, max: nat)
    ensures
        spec_parse_frames(log, offset, max).len() == 0 || (offset >= 0 && 10 * spec_parse_frames(
            log,
            offset,
            max,
        ).len() <= log.len() - offset),
{
    let fs = spec_parse_frames(log, offset, max);
    lemma_frames_chain(log, offset, max);
    if fs.len() > 0 {
        assert(fs[0].0 == offset);
        lemma_frame_end_lower(log, offset, max, fs.len() - 1);
    }
}

/// Two budgets parse the same frames when the smaller one already
/// exceeds what the bytes behind `offset` can hold.
pub proof fn lemma_frames_budget_enough(log: Seq<u8>, offset: int, m1: nat, m2: nat)
    requires
        m1 <= m2,
        10 * m1 >= log.len() - offset,
    ensures
        spec_parse_frames(log, offset, m1) == spec_parse_frames(log, offset, m2),
{
    lemma_frames_budget(log, offset, m1, m2);
    lemma_frames_count(log, offset, m2);
    let f2 = spec_parse_frames(log, offset, m2);
    if f2.len() > m1 {
        assert(false);
    }
}

/// A budget of one unit per log byte saturates the parse: any larger
/// budget parses the same frames.
pub proof fn lemma_frames_saturate(log: Seq<u8>, offset: int, m: nat)
    requires
        m >= log.len(),
    ensures
        spec_parse_frames(log, offset, m) == spec_parse_frames(log, offset, log.len() as nat),
{
    let big = spec_parse_frames(log, offset, m);
    let small = spec_parse_frames(log, offset, log.len() as nat);
    lemma_frames_budget(log, offset, log.len() as nat, m);
    lemma_frames_count(log, offset, m);
    if big.len() > log.len() {
        assert(false);
    }
    assert(big.len() <= log.len());
    assert(small == big);
}

/// Within one parsed batch the frame ends never decrease: the
/// watermarks recorded from a batch are monotone.
pub proof fn lemma_batch_ends_monotone(log: Seq<u8>, offset: int, max: nat, j: int, k: int)
    requires
        0 <= j <= k < spec_parse_frames(log, offset, max).len(),
    ensures
        spec_parse_frames(log, offset, max)[j].1 <= spec_parse_frames(log, offset, max)[k].1,
    decreases k - j,
{
    lemma_frames_chain(log, offset, max);
    if j < k {
        lemma_batch_ends_monotone(log, offset, max, j, k - 1);
        let fs = spec_parse_frames(log, offset, max);
        assert(fs[k].0 == frame_start(fs, offset, k));
        assert(fs[k].0 == fs[k - 1].1);
    }
}

} // verus!
