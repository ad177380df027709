//! The hash-chained, append-only event log.
use vstd::prelude::*;
use crate::digest::{digest_hex, sha256_hex};
use crate::encode::{encode_record, record_text};
use crate::model::KernelOutput;
use crate::text::string_of;
use crate::verdict::ReasonCode;

verus! {

/// One logged decision and its place in the chain.
#[derive(Clone, Debug)]
pub struct EventRecord {
    pub seq: u64,
    pub payload: KernelOutput,
    pub prev_hash: String,
    pub hash: String,
}

/// The records in append order and the hash of the newest one (empty while
/// nothing has been appended).
#[derive(Debug)]
pub struct EventLog {
    pub records: Vec<EventRecord>,
    pub tip_hash: String,
}

/// The hash of the entry `(seq, out, prev_hash)`: lowercase hex of the
/// SHA-256 digest of its canonical text.
pub open spec fn record_hash(seq: u64, out: KernelOutput, prev_hash: Seq<char>) -> Seq<char> {
    digest_hex(
        record_text(
            seq,
            out.verdict,
            out.reasons@,
            out.command,
            out.contract_fingerprint@,
            prev_hash,
        ),
    )
}

/// Two outputs that say the same thing.
pub open spec fn same_output(a: KernelOutput, b: KernelOutput) -> bool {
    &&& a.verdict == b.verdict
    &&& a.reasons@ == b.reasons@
    &&& a.command == b.command
    &&& a.contract_fingerprint@ == b.contract_fingerprint@
}

/// The hash that record `i` links back to: the empty string for the first.
pub open spec fn expected_prev(records: Seq<EventRecord>, i: int) -> Seq<char> {
    if i == 0 {
        Seq::empty()
    } else {
        records[i - 1].hash@
    }
}

/// The hash of the newest record, or the empty string.
pub open spec fn tip_of(records: Seq<EventRecord>) -> Seq<char> {
    if records.len() == 0 {
        Seq::empty()
    } else {
        records.last().hash@
    }
}

impl EventLog {
    /// Every record hashes its own entry and links to its predecessor, and
    /// the tip is the newest hash.
    pub open spec fn wf(&self) -> bool {
        &&& forall|i: int|
            0 <= i < self.records@.len() ==> (#[trigger] self.records@[i].prev_hash)@ == expected_prev(
                self.records@,
                i,
            )
        &&& forall|i: int|
            0 <= i < self.records@.len() ==> self.records@[i].hash@ == #[trigger] record_hash(
                self.records@[i].seq,
                self.records@[i].payload,
                self.records@[i].prev_hash@,
            )
        &&& self.tip_hash@ == tip_of(self.records@)
    }

    pub fn new() -> (r: EventLog)
        ensures
            r.wf(),
            r.records@.len() == 0,
            r.tip_hash@.len() == 0,
    {
        EventLog { records: Vec::new(), tip_hash: String::new() }
    }

    /// Appends `(seq, payload)`, chained to the current tip, and moves the
    /// tip to the new record's hash.
    pub fn append(&mut self, seq: u64, payload: &KernelOutput)
        requires
            old(self).wf(),
        ensures
            final(self).wf(),
            final(self).records@.len() == old(self).records@.len() + 1,
            final(self).records@.drop_last() == old(self).records@,
            final(self).records@.last().seq == seq,
            same_output(final(self).records@.last().payload, *payload),
            final(self).records@.last().prev_hash@ == old(self).tip_hash@,
            final(self).tip_hash@ == record_hash(seq, *payload, old(self).tip_hash@),
    {
        let prev_hash = self.tip_hash.clone();
        let text = string_of(encode_record(seq, payload, &prev_hash).as_slice());
        let hash = sha256_hex(&text);
        let record = EventRecord {
            seq,
            payload: copy_output(payload),
            prev_hash,
            hash: hash.clone(),
        };
        let ghost old_records = self.records@;
        self.records.push(record);
        self.tip_hash = hash;
        proof {
            assert(self.records@.drop_last() =~= old_records);
            assert forall|i: int| 0 <= i < self.records@.len() implies (
            #[trigger] self.records@[i].prev_hash)@ == expected_prev(self.records@, i) by {
                if i < old_records.len() {
                    assert(self.records@[i] == old_records[i]);
                    if i > 0 {
                        assert(self.records@[i - 1] == old_records[i - 1]);
                    }
                }
            }
            assert forall|i: int| 0 <= i < self.records@.len() implies self.records@[i].hash@
                == #[trigger] record_hash(
                self.records@[i].seq,
                self.records@[i].payload,
                self.records@[i].prev_hash@,
            ) by {
                if i < old_records.len() {
                    assert(self.records@[i] == old_records[i]);
                }
            }
        }
    }
}

/// Chain integrity of a well-formed log: each record after the first links
/// to the hash of the one before, the first links to the empty string, and
/// the tip is the newest record's hash.
pub proof fn lemma_chain_integrity(log: &EventLog)
    requires
        log.wf(),
    ensures
        forall|i: int|
            0 < i < log.records@.len() ==> (#[trigger] log.records@[i].prev_hash)@
                == log.records@[i - 1].hash@,
        log.records@.len() > 0 ==> log.records@[0].prev_hash@.len() == 0,
        log.records@.len() > 0 ==> log.tip_hash@ == log.records@.last().hash@,
        log.records@.len() == 0 ==> log.tip_hash@.len() == 0,
{
    assert forall|i: int| 0 < i < log.records@.len() implies (#[trigger] log.records@[i].prev_hash)@
        == log.records@[i - 1].hash@ by {
        assert(log.records@[i].prev_hash@ == expected_prev(log.records@, i));
    }
    if log.records@.len() > 0 {
        assert(log.records@[0].prev_hash@ == expected_prev(log.records@, 0));
    }
}

/// A copy of `o` that says the same thing.
pub fn copy_output(o: &KernelOutput) -> (r: KernelOutput)
    ensures
        same_output(r, *o),
{
    let mut reasons: Vec<ReasonCode> = Vec::new();
    let mut i: usize = 0;
    while i < o.reasons.len()
        invariant
            i <= o.reasons@.len(),
            reasons@ == o.reasons@.take(i as int),
        decreases o.reasons@.len() - i,
    {
        reasons.push(o.reasons[i]);
        i = i + 1;
        proof {
            assert(reasons@ =~= o.reasons@.take(i as int));
        }
    }
    proof {
        assert(o.reasons@.take(i as int) =~= o.reasons@);
    }
    KernelOutput {
        verdict: o.verdict,
        reasons,
        command: o.command,
        contract_fingerprint: o.contract_fingerprint.clone(),
    }
}

} // verus!
