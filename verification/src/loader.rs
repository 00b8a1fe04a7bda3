//! The catalog loader: walks a byte stream record by record, keeps every
//! entity that decodes, and records a diagnostic for every record that does
//! not.
//!
//! Recovery policy: a malformed record never stops the load.  The loader
//! skips ahead by the fixed record width and goes on — if the true cause was
//! an insertion or deletion of bytes, resynchronization may cascade, a known
//! limitation of the format.  The only normal termination is a clean end at
//! a record boundary; a shorter tail is reported as one truncated record.

use vstd::prelude::*;
use vstd::arithmetic::div_mod::lemma_fundamental_div_mod;
use crate::codec::{
    decode_record, record_entity, record_error, record_ok, DecodeError, DecodeErrorView,
    RECORD_SIZE,
};
use crate::entity::{Entity, EntityView};

verus! {

/// One malformed record: its 1-based position in the stream and the cause.
pub struct Diagnostic {
    /// 1-based record counter at which the malformed record sat.
    pub record: usize,
    /// Why the record failed to decode.
    pub error: DecodeError,
}

/// Mathematical model of a diagnostic.
pub ghost struct DiagnosticView {
    pub record: int,
    pub error: DecodeErrorView,
}

impl View for Diagnostic {
    type V = DiagnosticView;

    open spec fn view(&self) -> DiagnosticView {
        DiagnosticView { record: self.record as int, error: self.error@ }
    }
}

/// Everything one load of a stream produces: the catalog, in stream order,
/// and one diagnostic per malformed record.
pub struct LoadResult {
    /// The entities that decoded, in stream order.
    pub entities: Vec<Entity>,
    /// One entry per malformed record, in stream order.
    pub diagnostics: Vec<Diagnostic>,
}

/// Views of a sequence of entities.
pub open spec fn entity_views(s: Seq<Entity>) -> Seq<EntityView> {
    s.map_values(|e: Entity| e@)
}

/// Views of a sequence of diagnostics.
pub open spec fn diag_views(s: Seq<Diagnostic>) -> Seq<DiagnosticView> {
    s.map_values(|d: Diagnostic| d@)
}

/// How many full records the stream holds.
pub open spec fn full_records(s: Seq<u8>) -> int {
    s.len() as int / RECORD_SIZE as int
}

/// The bytes of the stream's `i`-th record.
pub open spec fn record_at(s: Seq<u8>, i: int) -> Seq<u8> {
    s.subrange(RECORD_SIZE * i, RECORD_SIZE * i + RECORD_SIZE)
}

/// The entities of the first `k` records that decode, in stream order.
pub open spec fn entities_upto(s: Seq<u8>, k: int) -> Seq<EntityView>
    decreases k,
{
    if k <= 0 {
        Seq::empty()
    } else if record_ok(record_at(s, k - 1)) {
        entities_upto(s, k - 1).push(record_entity(record_at(s, k - 1)))
    } else {
        entities_upto(s, k - 1)
    }
}

/// The diagnostics of the first `k` records, in stream order; the counter is
/// 1-based.
pub open spec fn diags_upto(s: Seq<u8>, k: int) -> Seq<DiagnosticView>
    decreases k,
{
    if k <= 0 {
        Seq::empty()
    } else if record_ok(record_at(s, k - 1)) {
        diags_upto(s, k - 1)
    } else {
        diags_upto(s, k - 1).push(
            DiagnosticView { record: k, error: record_error(record_at(s, k - 1)) },
        )
    }
}

/// The full catalog of a stream: every entity of a full record that decodes.
pub open spec fn catalog_entities(s: Seq<u8>) -> Seq<EntityView> {
    entities_upto(s, full_records(s))
}

/// Every diagnostic of a stream: one per malformed full record, and, when
/// the stream does not end at a record boundary, one truncated record after
/// the last full one.
pub open spec fn catalog_diags(s: Seq<u8>) -> Seq<DiagnosticView> {
    if s.len() as int % RECORD_SIZE as int == 0 {
        diags_upto(s, full_records(s))
    } else {
        diags_upto(s, full_records(s)).push(
            DiagnosticView {
                record: full_records(s) + 1,
                error: DecodeErrorView::TruncatedRecord,
            },
        )
    }
}

/// Every entity in the catalog is well formed.
pub proof fn lemma_catalog_entities_wf(s: Seq<u8>)
    ensures
        forall|i: int|
            0 <= i < catalog_entities(s).len() ==> (#[trigger] catalog_entities(s)[i]).wf(),
{
    lemma_fundamental_div_mod(s.len() as int, RECORD_SIZE as int);
    lemma_entities_upto_wf(s, full_records(s));
}

/// Helper for [`lemma_catalog_entities_wf`]: the same statement for the
/// first `k` records.
proof fn lemma_entities_upto_wf(s: Seq<u8>, k: int)
    requires
        RECORD_SIZE * k <= s.len(),
    ensures
        forall|i: int| 0 <= i < entities_upto(s, k).len() ==> (#[trigger] entities_upto(s, k)[i]).wf(),
    decreases k,
{
    if k > 0 {
        lemma_entities_upto_wf(s, k - 1);
        let pre = entities_upto(s, k - 1);
        if record_ok(record_at(s, k - 1)) {
            crate::codec::lemma_record_entity_wf(record_at(s, k - 1));
            assert forall|i: int| 0 <= i < entities_upto(s, k).len() implies (
            #[trigger] entities_upto(s, k)[i]).wf() by {
                if i < pre.len() {
                    assert(entities_upto(s, k)[i] == pre[i]);
                }
            }
        }
    }
}

/// Loads a whole stream: the catalog in stream order, plus one diagnostic
/// per malformed record, the trailing partial record included.
pub fn load_catalog(stream: &[u8]) -> (r: LoadResult)
    ensures
        entity_views(r.entities@) == catalog_entities(stream@),
        diag_views(r.diagnostics@) == catalog_diags(stream@),
        forall|i: int| 0 <= i < r.entities@.len() ==> (#[trigger] r.entities@[i])@.wf(),
{
    let n = stream.len() / RECORD_SIZE;
    proof {
        lemma_fundamental_div_mod(stream@.len() as int, RECORD_SIZE as int);
    }
    let mut entities: Vec<Entity> = Vec::new();
    let mut diagnostics: Vec<Diagnostic> = Vec::new();
    let mut i: usize = 0;
    while i < n
        invariant
            i <= n,
            n == full_records(stream@),
            RECORD_SIZE * n <= stream@.len() <= usize::MAX,
            entity_views(entities@) == entities_upto(stream@, i as int),
            diag_views(diagnostics@) == diags_upto(stream@, i as int),
        decreases n - i,
    {
        proof {
            assert(RECORD_SIZE * (i + 1) <= RECORD_SIZE * n);
            assert(i * RECORD_SIZE + RECORD_SIZE == RECORD_SIZE * (i + 1));
            assert(i * RECORD_SIZE + RECORD_SIZE <= stream@.len());
        }
        let rec = vstd::slice::slice_subrange(stream, i * RECORD_SIZE, i * RECORD_SIZE + RECORD_SIZE);
        let ghost pre_entities = entities@;
        let ghost pre_diags = diagnostics@;
        match decode_record(rec) {
            Ok(e) => {
                entities.push(e);
                proof {
                    assert(entity_views(entities@) =~= entity_views(pre_entities).push(
                        entities@.last()@,
                    ));
                }
            },
            Err(error) => {
                diagnostics.push(Diagnostic { record: i + 1, error });
                proof {
                    assert(diag_views(diagnostics@) =~= diag_views(pre_diags).push(
                        diagnostics@.last()@,
                    ));
                }
            },
        }
        i += 1;
    }
    if stream.len() % RECORD_SIZE != 0 {
        let ghost pre_diags = diagnostics@;
        diagnostics.push(Diagnostic { record: n + 1, error: DecodeError::TruncatedRecord });
        proof {
            assert(diag_views(diagnostics@) =~= diag_views(pre_diags).push(
                diagnostics@.last()@,
            ));
        }
    }
    proof {
        lemma_catalog_entities_wf(stream@);
        assert forall|j: int| 0 <= j < entities@.len() implies (#[trigger] entities@[j])@.wf() by {
            assert(entity_views(entities@)[j] == entities@[j]@);
            assert(catalog_entities(stream@)[j].wf());
        }
    }
    LoadResult { entities, diagnostics }
}

/// On a stream that is a whole number of records, all of them valid, the
/// catalog holds exactly one entity per record, in stream order, and there
/// are no diagnostics.
pub proof fn lemma_all_valid_stream(s: Seq<u8>)
    requires
        s.len() as int % RECORD_SIZE as int == 0,
        forall|i: int| 0 <= i < full_records(s) ==> record_ok(#[trigger] record_at(s, i)),
    ensures
        catalog_entities(s).len() == full_records(s),
        forall|i: int|
            0 <= i < full_records(s) ==> catalog_entities(s)[i] == record_entity(
                #[trigger] record_at(s, i),
            ),
        catalog_diags(s) == Seq::<DiagnosticView>::empty(),
{
    lemma_prefix_all_valid(s, full_records(s));
}

/// Helper for [`lemma_all_valid_stream`]: the same statement for the first
/// `k` records.
proof fn lemma_prefix_all_valid(s: Seq<u8>, k: int)
    requires
        k <= full_records(s),
        forall|i: int| 0 <= i < k ==> record_ok(#[trigger] record_at(s, i)),
    ensures
        entities_upto(s, k).len() == if k <= 0 { 0 } else { k },
        forall|i: int|
            0 <= i < k ==> entities_upto(s, k)[i] == record_entity(#[trigger] record_at(s, i)),
        diags_upto(s, k) == Seq::<DiagnosticView>::empty(),
    decreases k,
{
    if k > 0 {
        lemma_prefix_all_valid(s, k - 1);
    }
}

/// On a stream that does not end at a record boundary, the tail after the
/// last full record yields exactly one diagnostic — a truncated record,
/// numbered after the full ones — and no entity: entities and the other
/// diagnostics are those of the stream cut at the last record boundary.
pub proof fn lemma_truncated_tail(s: Seq<u8>)
    requires
        s.len() as int % RECORD_SIZE as int != 0,
    ensures
        catalog_entities(s) == catalog_entities(s.take(RECORD_SIZE * full_records(s))),
        catalog_diags(s) == catalog_diags(s.take(RECORD_SIZE * full_records(s))).push(
            DiagnosticView {
                record: full_records(s) + 1,
                error: DecodeErrorView::TruncatedRecord,
            },
        ),
{
    let n = full_records(s);
    let cut = s.take(RECORD_SIZE * n);
    lemma_fundamental_div_mod(s.len() as int, RECORD_SIZE as int);
    assert(cut.len() == RECORD_SIZE * n);
    lemma_fundamental_div_mod(cut.len() as int, RECORD_SIZE as int);
    assert(full_records(cut) == n) by {
        vstd::arithmetic::div_mod::lemma_fundamental_div_mod_converse(
            cut.len() as int,
            RECORD_SIZE as int,
            n,
            0,
        );
    }
    assert forall|i: int| 0 <= i < n implies #[trigger] record_at(s, i) == record_at(cut, i) by {
        assert(record_at(cut, i) =~= record_at(s, i));
    }
    lemma_same_records_same_catalog(s, cut, n);
}

/// Two streams whose first `k` records hold the same bytes decode to the
/// same entities and the same diagnostics over those records.
proof fn lemma_same_records_same_catalog(s: Seq<u8>, t: Seq<u8>, k: int)
    requires
        k * RECORD_SIZE <= s.len(),
        k * RECORD_SIZE <= t.len(),
        forall|i: int| 0 <= i < k ==> #[trigger] record_at(s, i) == record_at(t, i),
    ensures
        entities_upto(s, k) == entities_upto(t, k),
        diags_upto(s, k) == diags_upto(t, k),
    decreases k,
{
    if k > 0 {
        lemma_same_records_same_catalog(s, t, k - 1);
    }
}

} // verus!
