//! The record aggregator.
//!
//! A state machine over the input stream, which arrives already grouped by
//! read identifier. Consecutive records sharing one identifier accumulate
//! into a single logical read record; an identifier boundary emits the
//! accumulated record and seeds a new one. A record whose barcode or UMI
//! still holds an ambiguous base after the single substitution is rejected
//! and skipped — the only non-fatal failure — while a symbol outside the
//! alphabet is fatal.

use vstd::prelude::*;
use vstd::slice::slice_to_vec;
use crate::error::DecodeError;
use crate::pack::{
    all_valid_nt, cb_string_to_u64, count_ambiguous, errs_first_invalid, lemma_pack_spec_fits_u64,
    lemma_substitution_preserves_validity, packed_value, substitute_ambiguous,
    substitute_first_ambiguous,
};
use crate::record::{
    AlnRecord, AlnRecordV, LogicalReadRecord, ReadRecordV, compress_tid, spec_compress_tid,
};

verus! {

/// The aggregator's state: before the first record, or accumulating the
/// alignments of one read.
pub enum AggState {
    /// No record seen yet, or the last read was rejected.
    AwaitingFirst,
    /// The read with this identifier is open: its packed barcode and UMI,
    /// and the compressed target ids seen so far.
    Accumulating { qname: Vec<u8>, barcode: u64, umi: u64, target_ids: Vec<u32> },
}

/// The mathematical value of the aggregator's state.
pub ghost enum AggStateV {
    AwaitingFirst,
    Accumulating { qname: Seq<u8>, barcode: u64, umi: u64, target_ids: Seq<u32> },
}

impl View for AggState {
    type V = AggStateV;

    open spec fn view(&self) -> AggStateV {
        match self {
            AggState::AwaitingFirst => AggStateV::AwaitingFirst,
            AggState::Accumulating { qname, barcode, umi, target_ids } => {
                AggStateV::Accumulating {
                    qname: qname@,
                    barcode: *barcode,
                    umi: *umi,
                    target_ids: target_ids@,
                }
            },
        }
    }
}

/// Neither tag string holds more than one ambiguous base.
pub open spec fn tags_unambiguous(r: AlnRecordV) -> bool {
    count_ambiguous(r.barcode) <= 1 && count_ambiguous(r.umi) <= 1
}

/// Every symbol of both tag strings is a valid nucleotide.
pub open spec fn tags_wellformed(r: AlnRecordV) -> bool {
    all_valid_nt(r.barcode) && all_valid_nt(r.umi)
}

/// The logical read record an accumulating state would emit.
pub open spec fn emit_of(st: AggStateV) -> Option<ReadRecordV> {
    match st {
        AggStateV::AwaitingFirst => None,
        AggStateV::Accumulating { qname, barcode, umi, target_ids } => {
            Some(ReadRecordV { barcode, umi, target_ids })
        },
    }
}

/// The state seeded from the first record of a new read.
pub open spec fn seeded_from(r: AlnRecordV) -> AggStateV {
    AggStateV::Accumulating {
        qname: r.qname,
        barcode: packed_value(r.barcode) as u64,
        umi: packed_value(r.umi) as u64,
        target_ids: seq![spec_compress_tid(r.tid, r.is_reverse)],
    }
}

/// The record continues the read that is currently open.
pub open spec fn same_read(st: AggStateV, r: AlnRecordV) -> bool {
    match st {
        AggStateV::AwaitingFirst => false,
        AggStateV::Accumulating { qname, .. } => qname == r.qname,
    }
}

/// The open state with one more compressed target id.
pub open spec fn with_target(st: AggStateV, ct: u32) -> AggStateV
    recommends
        st is Accumulating,
{
    match st {
        AggStateV::AwaitingFirst => st,
        AggStateV::Accumulating { qname, barcode, umi, target_ids } => {
            AggStateV::Accumulating { qname, barcode, umi, target_ids: target_ids.push(ct) }
        },
    }
}

/// What one input record does to the aggregator.
pub ghost struct StepV {
    /// The state after the record.
    pub state: AggStateV,
    /// The logical read record emitted at an identifier boundary, if any.
    pub emit: Option<ReadRecordV>,
    /// True when the record's tags hold a symbol outside the alphabet.
    pub fatal: bool,
}

/// The aggregator's transition function. A record of the open read appends
/// its target id. Any other record closes the open read (emitting it), then
/// seeds a new one — unless its tags are ambiguous, which skips the record,
/// or malformed, which is fatal.
pub open spec fn agg_step(st: AggStateV, r: AlnRecordV) -> StepV {
    if same_read(st, r) {
        StepV {
            state: with_target(st, spec_compress_tid(r.tid, r.is_reverse)),
            emit: None,
            fatal: false,
        }
    } else {
        if !tags_unambiguous(r) {
            StepV { state: AggStateV::AwaitingFirst, emit: emit_of(st), fatal: false }
        } else if !tags_wellformed(r) {
            StepV { state: AggStateV::AwaitingFirst, emit: None, fatal: true }
        } else {
            StepV { state: seeded_from(r), emit: emit_of(st), fatal: false }
        }
    }
}

/// The outcome of running the aggregator over a whole input.
pub ghost struct RunV {
    /// The state after the last record.
    pub state: AggStateV,
    /// Every record emitted at an identifier boundary, in input order.
    pub emits: Seq<ReadRecordV>,
    /// True when some record's tags were malformed; the run stops there.
    pub fatal: bool,
}

/// The emitted record as a (possibly empty) run of records.
pub open spec fn emit_seq(e: Option<ReadRecordV>) -> Seq<ReadRecordV> {
    match e {
        Option::None => Seq::empty(),
        Option::Some(r) => seq![r],
    }
}

/// Runs the aggregator over a finite input, record by record.
pub open spec fn agg_run(rs: Seq<AlnRecordV>) -> RunV
    decreases rs.len(),
{
    if rs.len() == 0 {
        RunV { state: AggStateV::AwaitingFirst, emits: Seq::empty(), fatal: false }
    } else {
        let p = agg_run(rs.drop_last());
        if p.fatal {
            p
        } else {
            let s = agg_step(p.state, rs.last());
            RunV { state: s.state, emits: p.emits + emit_seq(s.emit), fatal: s.fatal }
        }
    }
}

/// Every logical read record of a finite input: the boundary emissions,
/// then the final record the exhausted stream leaves open.
pub open spec fn logical_records(rs: Seq<AlnRecordV>) -> Seq<ReadRecordV>
    recommends
        !agg_run(rs).fatal,
{
    agg_run(rs).emits + emit_seq(emit_of(agg_run(rs).state))
}

/// The error e names the first invalid symbol of whichever substituted tag
/// string is malformed, the barcode checked first.
pub open spec fn agg_err_ok(r: AlnRecordV, e: DecodeError) -> bool {
    if !all_valid_nt(r.barcode) {
        errs_first_invalid(substitute_first_ambiguous(r.barcode), e)
    } else {
        errs_first_invalid(substitute_first_ambiguous(r.umi), e)
    }
}

/// Byte-for-byte equality of two strings.
fn bytes_equal(a: &[u8], b: &[u8]) -> (r: bool)
    ensures
        r == (a@ == b@),
{
    if a.len() != b.len() {
        return false;
    }
    let n = a.len();
    let mut i: usize = 0;
    while i < n
        invariant
            n == a@.len() == b@.len(),
            i <= n,
            forall|k: int| 0 <= k < i ==> a@[k] == b@[k],
        decreases n - i,
    {
        if a[i] != b[i] {
            return false;
        }
        i = i + 1;
    }
    proof {
        assert(a@ =~= b@);
    }
    true
}

/// The record aggregator: collapses consecutive records sharing a read
/// identifier into one logical read record.
pub struct Aggregator {
    state: AggState,
}

impl Aggregator {
    /// The current state.
    pub closed spec fn state_v(self) -> AggStateV {
        self.state@
    }

    /// An open read always holds at least one target id, so an emitted
    /// record is never empty.
    pub closed spec fn wf(self) -> bool {
        match self.state@ {
            AggStateV::AwaitingFirst => true,
            AggStateV::Accumulating { target_ids, .. } => target_ids.len() >= 1,
        }
    }

    /// A fresh aggregator, before the first record.
    pub fn new() -> (a: Aggregator)
        ensures
            a.wf(),
            a.state_v() == AggStateV::AwaitingFirst,
    {
        Aggregator { state: AggState::AwaitingFirst }
    }

    /// Whether a read is currently open.
    pub fn is_open(&self) -> (b: bool)
        ensures
            b == (self.state_v() is Accumulating),
    {
        match &self.state {
            AggState::AwaitingFirst => false,
            AggState::Accumulating { .. } => true,
        }
    }

    /// How many target ids the open read holds; zero when none is open.
    pub fn open_target_count(&self) -> (n: usize)
        ensures
            self.state_v() is AwaitingFirst ==> n == 0,
            self.state_v() matches AggStateV::Accumulating { target_ids, .. } ==> n
                == target_ids.len(),
    {
        match &self.state {
            AggState::AwaitingFirst => 0,
            AggState::Accumulating { target_ids, .. } => target_ids.len(),
        }
    }

    /// Seeds a new open read from a boundary record: substitutes and packs
    /// both tags. Skipping (ambiguity) yields no state; a malformed symbol
    /// is the fatal error.
    fn seed(rec: &AlnRecord) -> (r: Result<Option<AggState>, DecodeError>)
        requires
            rec@.tid < 0x8000_0000,
            rec@.barcode.len() <= 32,
            rec@.umi.len() <= 32,
        ensures
            !tags_unambiguous(rec@) ==> r == Ok::<Option<AggState>, DecodeError>(None),
            tags_unambiguous(rec@) && !tags_wellformed(rec@) ==> r is Err && agg_err_ok(
                rec@,
                r->Err_0,
            ),
            tags_unambiguous(rec@) && tags_wellformed(rec@) ==> (r matches Ok(Some(st)) && st@
                == seeded_from(rec@)),
    {
        let bc_fixed = match substitute_ambiguous(rec.barcode.as_slice()) {
            Ok(v) => v,
            Err(_) => {
                return Ok(None);
            },
        };
        let umi_fixed = match substitute_ambiguous(rec.umi.as_slice()) {
            Ok(v) => v,
            Err(_) => {
                return Ok(None);
            },
        };
        proof {
            lemma_substitution_preserves_validity(rec@.barcode);
            lemma_substitution_preserves_validity(rec@.umi);
            lemma_pack_spec_fits_u64(substitute_first_ambiguous(rec@.barcode));
            lemma_pack_spec_fits_u64(substitute_first_ambiguous(rec@.umi));
        }
        let barcode = match cb_string_to_u64(bc_fixed.as_slice()) {
            Ok(v) => v,
            Err(e) => {
                return Err(e);
            },
        };
        let umi = match cb_string_to_u64(umi_fixed.as_slice()) {
            Ok(v) => v,
            Err(e) => {
                return Err(e);
            },
        };
        let ct = compress_tid(rec.tid, rec.is_reverse);
        let mut target_ids: Vec<u32> = Vec::new();
        target_ids.push(ct);
        let qname = slice_to_vec(rec.qname.as_slice());
        proof {
            assert(target_ids@ =~= seq![spec_compress_tid(rec@.tid, rec@.is_reverse)]);
        }
        Ok(Some(AggState::Accumulating { qname, barcode, umi, target_ids }))
    }

    /// Feeds one input record: appends to the open read, or closes it and
    /// emits its logical read record while seeding (or skipping) the new
    /// one. Exactly the transition `agg_step` describes.
    pub fn observe(&mut self, rec: &AlnRecord) -> (r: Result<Option<LogicalReadRecord>, DecodeError>)
        requires
            old(self).wf(),
            rec@.tid < 0x8000_0000,
            rec@.barcode.len() <= 32,
            rec@.umi.len() <= 32,
        ensures
            final(self).wf(),
            final(self).state_v() == agg_step(old(self).state_v(), rec@).state,
            r is Ok <==> !agg_step(old(self).state_v(), rec@).fatal,
            r matches Ok(Some(e)) ==> agg_step(old(self).state_v(), rec@).emit == Some(e@),
            r matches Ok(None) ==> agg_step(old(self).state_v(), rec@).emit is None,
            r matches Ok(Some(e)) ==> e@.target_ids.len() >= 1,
            r is Err ==> agg_err_ok(rec@, r->Err_0),
    {
        let mut st = AggState::AwaitingFirst;
        core::mem::swap(&mut st, &mut self.state);
        match st {
            AggState::Accumulating { qname, barcode, umi, mut target_ids } => {
                if bytes_equal(qname.as_slice(), rec.qname.as_slice()) {
                    let ct = compress_tid(rec.tid, rec.is_reverse);
                    target_ids.push(ct);
                    self.state = AggState::Accumulating { qname, barcode, umi, target_ids };
                    Ok(None)
                } else {
                    let emitted = LogicalReadRecord { barcode, umi, target_ids };
                    match Self::seed(rec) {
                        Ok(Some(seeded)) => {
                            self.state = seeded;
                            Ok(Some(emitted))
                        },
                        Ok(None) => Ok(Some(emitted)),
                        Err(e) => Err(e),
                    }
                }
            },
            AggState::AwaitingFirst => {
                match Self::seed(rec) {
                    Ok(Some(seeded)) => {
                        self.state = seeded;
                        Ok(None)
                    },
                    Ok(None) => Ok(None),
                    Err(e) => Err(e),
                }
            },
        }
    }

    /// Closes the stream: the open read, if any, becomes the final logical
    /// read record.
    pub fn finish(self) -> (r: Option<LogicalReadRecord>)
        requires
            self.wf(),
        ensures
            match r {
                Option::None => emit_of(self.state_v()) is None,
                Option::Some(e) => emit_of(self.state_v()) == Some(e@) && e@.target_ids.len() >= 1,
            },
    {
        match self.state {
            AggState::AwaitingFirst => None,
            AggState::Accumulating { qname: _, barcode, umi, target_ids } => {
                Some(LogicalReadRecord { barcode, umi, target_ids })
            },
        }
    }
}

} // verus!
