//! The outbox journal: an append-only byte log with a persisted replay
//! cursor.
//!
//! The journal itself is the byte image of `outbox.log`; the cursor is
//! the value of `outbox.cursor`. File I/O happens outside the library:
//! the journal is opened from the bytes read from disk, and after every
//! mutation the caller persists the log bytes and the cursor it reads
//! back out.

use vstd::prelude::*;
use vstd::bytes::*;
use vstd::slice::slice_subrange;

use crate::errors::AppError;
use crate::replication::codec::OutboxRecord;
use crate::replication::codec::RecView;
use crate::replication::codec::rec_wf;
use crate::replication::codec::spec_frame;
use crate::replication::codec::spec_parse_frame_at;
use crate::replication::codec::spec_parse_frames;
use crate::replication::codec::OB_MAGIC;
use crate::replication::codec::OB_VERSION;
use crate::replication::codec::HEADER_LEN;

verus! {

broadcast use vstd::slice::axiom_spec_len;

/// The ghost image of a journal: log bytes, cursor, fsync mode.
pub struct OutboxView {
    pub log: Seq<u8>,
    pub cursor: u64,
    pub fsync: bool,
}

/// The view of an executable batch of parsed frames.
pub open spec fn frames_view(v: Seq<(u64, u64, OutboxRecord)>) -> Seq<(int, int, RecView)> {
    v.map_values(|t: (u64, u64, OutboxRecord)| (t.0 as int, t.1 as int, t.2@))
}

/// The frames still pending behind the cursor. One budget unit per log
/// byte always suffices, since every frame spans at least a header:
/// see [`crate::replication::codec::lemma_frames_saturate`].
pub open spec fn spec_pending_frames(ob: OutboxView) -> Seq<(int, int, RecView)> {
    spec_parse_frames(ob.log, ob.cursor as int, ob.log.len() as nat)
}

/// The append-only journal and its replay cursor.
#[derive(Debug)]
pub struct Outbox {
    log: Vec<u8>,
    cursor: u64,
    fsync: bool,
}

impl View for Outbox {
    type V = OutboxView;

    closed spec fn view(&self) -> OutboxView {
        OutboxView { log: self.log@, cursor: self.cursor, fsync: self.fsync }
    }
}

impl Outbox {
    /// The journal invariant: the cursor lies within the log.
    pub open spec fn wf(&self) -> bool {
        self@.cursor <= self@.log.len()
    }

    /// A fresh, empty journal, as created on first open.
    pub fn new(fsync: bool) -> (r: Self)
        ensures
            r@.log.len() == 0,
            r@.cursor == 0,
            r@.fsync == fsync,
            r.wf(),
    {
        Outbox { log: Vec::new(), cursor: 0, fsync }
    }

    /// Reopens a journal from the bytes of its two files. Fails exactly
    /// when the stored cursor lies beyond the end of the log.
    pub fn from_parts(log: Vec<u8>, cursor: u64, fsync: bool) -> (r: Option<Self>)
        ensures
            match r {
                Some(ob) => ob@.log == log@ && ob@.cursor == cursor && ob@.fsync == fsync
                    && ob.wf(),
                None => cursor > log@.len(),
            },
    {
        if cursor > log.len() as u64 {
            None
        } else {
            Some(Outbox { log, cursor, fsync })
        }
    }

    /// The same journal with the fsync mode set.
    pub fn with_fsync(self, fsync: bool) -> (r: Self)
        ensures
            r@.log == self@.log,
            r@.cursor == self@.cursor,
            r@.fsync == fsync,
    {
        Outbox { fsync, ..self }
    }

    /// Whether appends ask for the log to be made durable at once.
    pub fn fsync_enabled(&self) -> (r: bool)
        ensures
            r == self@.fsync,
    {
        self.fsync
    }

    /// The current length of the log.
    pub fn end_offset(&self) -> (r: u64)
        ensures
            r == self@.log.len(),
    {
        self.log.len() as u64
    }

    /// The persisted replay cursor.
    pub fn load_cursor(&self) -> (r: u64)
        ensures
            r == self@.cursor,
    {
        self.cursor
    }

    /// The persisted replay cursor.
    pub fn current_cursor(&self) -> (r: u64)
        ensures
            r == self@.cursor,
    {
        self.cursor
    }

    /// The log bytes, for persisting.
    pub fn log_bytes(&self) -> (r: &Vec<u8>)
        ensures
            r@ == self@.log,
    {
        &self.log
    }

    /// Moves the cursor. The new offset must lie within the log: the
    /// caller only ever hands back offsets the journal produced.
    pub fn store_cursor(&mut self, offset: u64)
        requires
            offset <= old(self)@.log.len(),
        ensures
            final(self)@.log == old(self)@.log,
            final(self)@.cursor == offset,
            final(self)@.fsync == old(self)@.fsync,
            final(self).wf(),
    {
        self.cursor = offset;
    }

    /// Appends one record, stamping its creation time with `now_ms` when
    /// unset, and returns the offset just past the written frame.
    /// Fails exactly when a field of the record overflows its length
    /// prefix, leaving the journal unchanged.
    #[verifier::loop_isolation(false)]
    pub fn append(&mut self, rec: OutboxRecord, now_ms: u64) -> (r: Result<u64, AppError>)
        ensures
            match r {
                Ok(end) => {
                    &&& rec_wf(rec@)
                    &&& final(self)@.log == old(self)@.log + spec_frame(spec_stamped(rec@, now_ms))
                    &&& end == final(self)@.log.len()
                    &&& final(self)@.cursor == old(self)@.cursor
                    &&& final(self)@.fsync == old(self)@.fsync
                },
                Err(e) => !rec_wf(rec@) && *final(self) == *old(self) && e is Other,
            },
    {
        proof {
            lemma_auto_spec_u16_to_from_le_bytes();
            lemma_auto_spec_u32_to_from_le_bytes();
            lemma_auto_spec_u64_to_from_le_bytes();
        }
        if !rec.check_wf() {
            return Err(AppError::other("outbox record field exceeds its length prefix"));
        }
        let ghost orig = rec@;
        let rec = if rec.created_ms == 0 {
            OutboxRecord { created_ms: now_ms, ..rec }
        } else {
            rec
        };
        proof {
            assert(rec@ == spec_stamped(orig, now_ms));
            assert(rec_wf(rec@));
        }
        let payload = rec.encode();
        let mut frame = u32_to_le_bytes(OB_MAGIC);
        let ver = u16_to_le_bytes(OB_VERSION);
        frame.extend_from_slice(ver.as_slice());
        let pl = u32_to_le_bytes(payload.len() as u32);
        frame.extend_from_slice(pl.as_slice());
        frame.extend_from_slice(payload.as_slice());
        proof {
            assert(frame@ =~= spec_frame(rec@));
        }
        self.log.extend_from_slice(frame.as_slice());
        Ok(self.log.len() as u64)
    }

    /// Parses frames starting at `offset`, up to `max` of them, stopping
    /// without error at the first torn or malformed trailer.
    #[verifier::loop_isolation(false)]
    pub fn read_from(&self, offset: u64, max: usize) -> (r: Vec<(u64, u64, OutboxRecord)>)
        ensures
            frames_view(r@) == spec_parse_frames(self@.log, offset as int, max as nat),
    {
        let ghost log = self@.log;
        let mut out: Vec<(u64, u64, OutboxRecord)> = Vec::new();
        let mut cur: u64 = offset;
        let mut i: usize = 0;
        proof {
            assert(frames_view(out@) =~= Seq::<(int, int, RecView)>::empty());
            assert(Seq::<(int, int, RecView)>::empty() + spec_parse_frames(
                log,
                offset as int,
                max as nat,
            ) =~= spec_parse_frames(log, offset as int, max as nat));
        }
        while i < max
            invariant
                i <= max,
                out@.len() == i,
                spec_parse_frames(log, offset as int, max as nat) == frames_view(out@)
                    + spec_parse_frames(log, cur as int, (max - i) as nat),
            decreases max - i,
        {
            match parse_frame(&self.log, cur) {
                None => {
                    proof {
                        assert(spec_parse_frames(log, cur as int, (max - i) as nat)
                            =~= Seq::<(int, int, RecView)>::empty());
                        assert(frames_view(out@) + Seq::<(int, int, RecView)>::empty()
                            =~= frames_view(out@));
                    }
                    return out;
                },
                Some((end, rec)) => {
                    let ghost out_before = out@;
                    out.push((cur, end, rec));
                    proof {
                        let step = (cur as int, end as int, rec@);
                        assert(frames_view(out@) =~= frames_view(out_before) + seq![step]);
                        assert(spec_parse_frames(log, cur as int, (max - i) as nat) == seq![step]
                            + spec_parse_frames(log, end as int, (max - i - 1) as nat));
                        assert(frames_view(out_before) + (seq![step] + spec_parse_frames(
                            log,
                            end as int,
                            (max - i - 1) as nat,
                        )) =~= frames_view(out@) + spec_parse_frames(
                            log,
                            end as int,
                            (max - i - 1) as nat,
                        ));
                    }
                    cur = end;
                    i = i + 1;
                },
            }
        }
        proof {
            assert(spec_parse_frames(log, cur as int, 0) =~= Seq::<(int, int, RecView)>::empty());
            assert(frames_view(out@) + Seq::<(int, int, RecView)>::empty() =~= frames_view(out@));
        }
        out
    }

    /// The log is held in an executable vector, so its length is
    /// machine-bounded.
    pub proof fn lemma_log_len_bound(&self)
        ensures
            self@.log.len() <= usize::MAX,
    {
        vstd::std_specs::vec::axiom_spec_len(&self.log);
    }

    /// Counts the frames pending behind the cursor, with the same
    /// tolerant parse as [`Self::read_from`].
    pub fn pending_count(&self) -> (r: usize)
        ensures
            r == spec_pending_frames(self@).len(),
    {
        let batch = self.read_from(self.cursor, self.log.len());
        batch.len()
    }
}

/// The creation-time stamping `append` applies: `now_ms` replaces an
/// unset creation time.
pub open spec fn spec_stamped(r: RecView, now_ms: u64) -> RecView {
    if r.created_ms == 0 {
        RecView { created_ms: now_ms, ..r }
    } else {
        r
    }
}

/// Parses the frame at `offset`, mirroring [`spec_parse_frame_at`].
#[verifier::loop_isolation(false)]
fn parse_frame(log: &Vec<u8>, offset: u64) -> (r: Option<(u64, OutboxRecord)>)
    ensures
        match r {
            Some((end, rec)) => spec_parse_frame_at(log@, offset as int) == Some(
                (end as int, rec@),
            ) && offset < end <= log@.len(),
            None => spec_parse_frame_at(log@, offset as int) is None,
        },
{
    proof {
        lemma_auto_spec_u16_to_from_le_bytes();
        lemma_auto_spec_u32_to_from_le_bytes();
    }
    let n = log.len();
    if offset >= n as u64 || n as u64 - offset < HEADER_LEN as u64 {
        return None;
    }
    let off = offset as usize;
    let magic = u32_from_le_bytes(slice_subrange(log.as_slice(), off, off + 4));
    let version = u16_from_le_bytes(slice_subrange(log.as_slice(), off + 4, off + 6));
    let plen = u32_from_le_bytes(slice_subrange(log.as_slice(), off + 6, off + 10)) as usize;
    if magic != OB_MAGIC || version != OB_VERSION {
        return None;
    }
    if n - off - HEADER_LEN < plen {
        return None;
    }
    let payload = slice_subrange(log.as_slice(), off + HEADER_LEN, off + HEADER_LEN + plen);
    match OutboxRecord::decode(payload) {
        None => None,
        Some(rec) => {
            let end = offset + (HEADER_LEN + plen) as u64;
            Some((end, rec))
        },
    }
}

} // verus!
