//! The SCIP index as plain values: documents with their occurrences, and
//! the decoding of a `.scip` file's bytes into them.

use vstd::prelude::*;
use protobuf::Message;
use crate::cypher::executor::{insert_ordered_at, sort_ordered};
use crate::cypher::laws::{chars_compared_flips, sort_keeps_elements, sort_keeps_filter, sort_puts_in_order};
use crate::text::{Compared, chars_compared, compare_strs};

verus! {

/// A SCIP occurrence, as plain values.
#[derive(Debug)]
pub struct ScipOccurrence {
    pub symbol: String,
    pub symbol_roles: i32,
    pub range: Vec<i32>,
    pub enclosing_range: Vec<i32>,
}

/// A SCIP document, as plain values.
#[derive(Debug)]
pub struct ScipDocument {
    pub relative_path: String,
    pub occurrences: Vec<ScipOccurrence>,
}

pub struct ScipOccurrenceV {
    pub symbol: Seq<char>,
    pub roles: i32,
    pub range: Seq<i32>,
    pub enclosing: Seq<i32>,
}

impl View for ScipOccurrence {
    type V = ScipOccurrenceV;

    open spec fn view(&self) -> ScipOccurrenceV {
        ScipOccurrenceV { symbol: self.symbol@, roles: self.symbol_roles, range: self.range@, enclosing: self.enclosing_range@ }
    }
}

pub open spec fn occs_view(v: Seq<ScipOccurrence>) -> Seq<ScipOccurrenceV> {
    v.map_values(|o: ScipOccurrence| o@)
}

/// A document as values: relative path and occurrences.
pub type ScipDocumentV = (Seq<char>, Seq<ScipOccurrenceV>);

impl View for ScipDocument {
    type V = ScipDocumentV;

    open spec fn view(&self) -> ScipDocumentV {
        (self.relative_path@, occs_view(self.occurrences@))
    }
}

pub open spec fn docs_view(v: Seq<ScipDocument>) -> Seq<ScipDocumentV> {
    v.map_values(|d: ScipDocument| d@)
}

/// The documents that protobuf decoding of a SCIP `Index` finds in `bytes`;
/// `None` when the bytes are no valid index.
pub uninterp spec fn scip_index_documents(bytes: Seq<u8>) -> Option<Seq<ScipDocumentV>>;

/// Calls `scip::types::Index::parse_from_bytes` (protobuf's
/// `Message::parse_from_bytes`) and copies each document's path and each
/// occurrence's symbol, roles and ranges out, in order. The result is a
/// function of `bytes` alone; nothing more is claimed of the decoder.
#[verifier::external_body]
fn decode_index(bytes: &[u8]) -> (r: Option<Vec<ScipDocument>>)
    ensures
        match r {
            Some(d) => scip_index_documents(bytes@) == Some(docs_view(d@)),
            None => scip_index_documents(bytes@) is None,
        },
{
    let index = scip::types::Index::parse_from_bytes(bytes).ok()?;
    Some(index.documents.iter().map(|d| ScipDocument {
        relative_path: d.relative_path.clone(),
        occurrences: d.occurrences.iter().map(|o| ScipOccurrence {
            symbol: o.symbol.clone(),
            symbol_roles: o.symbol_roles,
            range: o.range.clone(),
            enclosing_range: o.enclosing_range.clone(),
        }).collect(),
    }).collect())
}

/// The message for a `.scip` file that does not decode.
pub open spec fn undecodable_message(path: Seq<char>) -> Seq<char> {
    "parse scip "@ + path + " — file may be truncated"@
}

/// Decodes the bytes of the `.scip` file at `path` into its documents, or
/// says which file could not be decoded.
pub fn decode_scip_index(path: &str, bytes: &[u8]) -> (r: Result<Vec<ScipDocument>, String>)
    ensures
        match r {
            Ok(d) => scip_index_documents(bytes@) == Some(docs_view(d@)),
            Err(m) => scip_index_documents(bytes@) is None && m@ == undecodable_message(path@),
        },
{
    match decode_index(bytes) {
        Some(d) => Ok(d),
        None => {
            let mut m = String::from_str("parse scip ");
            m.append(path);
            m.append(" — file may be truncated");
            proof {
                reveal_strlit("parse scip ");
                reveal_strlit(" — file may be truncated");
            }
            Err(m)
        },
    }
}

/// Document order: by relative path, as strings compare.
pub open spec fn doc_after() -> spec_fn(ScipDocumentV, ScipDocumentV) -> bool {
    |a: ScipDocumentV, b: ScipDocumentV| chars_compared(a.0, b.0) == Compared::Greater
}

fn copy_document(d: &ScipDocument) -> (r: ScipDocument)
    ensures
        r@ == d@,
{
    let mut occs: Vec<ScipOccurrence> = Vec::new();
    let mut k: usize = 0;
    while k < d.occurrences.len()
        invariant
            k <= d.occurrences@.len(),
            occs_view(occs@) == occs_view(d.occurrences@).subrange(0, k as int),
        decreases d.occurrences.len() - k,
    {
        let o = &d.occurrences[k];
        let c = ScipOccurrence {
            symbol: o.symbol.clone(),
            symbol_roles: o.symbol_roles,
            range: o.range.clone(),
            enclosing_range: o.enclosing_range.clone(),
        };
        assert(c@ == o@);
        let ghost pre = occs_view(occs@);
        occs.push(c);
        assert(occs_view(occs@) =~= pre.push(o@));
        assert(occs_view(d.occurrences@).subrange(0, k + 1) =~= occs_view(d.occurrences@).subrange(0, k as int).push(o@));
        k = k + 1;
    }
    assert(occs_view(d.occurrences@).subrange(0, d.occurrences@.len() as int) =~= occs_view(d.occurrences@));
    ScipDocument { relative_path: d.relative_path.clone(), occurrences: occs }
}

/// The documents in a deterministic order: sorted by relative path, those
/// with equal paths kept in their order.
pub fn documents_sorted(docs: &Vec<ScipDocument>) -> (r: Vec<ScipDocument>)
    ensures
        docs_view(r@) == sort_ordered(docs_view(docs@), doc_after()),
{
    let ghost dv = docs_view(docs@);
    let ghost after = doc_after();
    let mut out: Vec<ScipDocument> = Vec::new();
    let mut i: usize = 0;
    assert(dv.subrange(0, 0) =~= Seq::<ScipDocumentV>::empty());
    assert(docs_view(out@) =~= Seq::<ScipDocumentV>::empty());
    while i < docs.len()
        invariant
            i <= docs.len(),
            dv == docs_view(docs@),
            after == doc_after(),
            docs_view(out@) == sort_ordered(dv.subrange(0, i as int), after),
        decreases docs.len() - i,
    {
        let ghost sub = dv.subrange(0, (i + 1) as int);
        assert(sub.drop_last() =~= dv.subrange(0, i as int));
        let x = copy_document(&docs[i]);
        assert(sub.last() == x@);
        let ghost pv = docs_view(out@);
        let mut j: usize = out.len();
        while j > 0 && compare_strs(out[j - 1].relative_path.as_str(), x.relative_path.as_str()) == Compared::Greater
            invariant
                j <= out.len(),
                pv == docs_view(out@),
                after == doc_after(),
                forall|k: int| j <= k < pv.len() ==> after(#[trigger] pv[k], x@),
            decreases j,
        {
            assert(pv[j - 1] == out@[j - 1]@);
            j = j - 1;
        }
        proof {
            if j > 0 {
                assert(pv[j - 1] == out@[j - 1]@);
            }
            insert_ordered_at(pv, x@, after, j as int);
        }
        let ghost xv = x@;
        out.insert(j, x);
        assert(docs_view(out@) =~= pv.insert(j as int, xv));
        i = i + 1;
    }
    assert(dv.subrange(0, dv.len() as int) =~= dv);
    out
}

/// Sorting documents keeps every document, as often as it occurs, and puts
/// no document after one whose path sorts after its own.
pub proof fn sorted_documents_are_ordered(docs: Seq<ScipDocumentV>)
    ensures
        sort_ordered(docs, doc_after()).to_multiset() == docs.to_multiset(),
        sort_ordered(docs, doc_after()).len() == docs.len(),
        forall|i: int|
            0 <= i < docs.len() - 1 ==> chars_compared(
                (#[trigger] sort_ordered(docs, doc_after())[i]).0,
                sort_ordered(docs, doc_after())[i + 1].0,
            ) != Compared::Greater,
{
    let after = doc_after();
    assert forall|a: ScipDocumentV, b: ScipDocumentV| #[trigger] after(a, b) implies !after(b, a) by {
        chars_compared_flips(a.0, b.0);
    }
    sort_puts_in_order(docs, after);
    sort_keeps_elements(docs, after);
    let r = sort_ordered(docs, after);
    assert forall|i: int| 0 <= i < docs.len() - 1 implies chars_compared((#[trigger] r[i]).0, r[i + 1].0) != Compared::Greater by {
        assert(!after(r[i], r[i + 1]));
    }
}

/// Sorting documents is stable: for every path, the documents with that
/// path come out in the order they came in.
pub proof fn sorting_documents_is_stable(docs: Seq<ScipDocumentV>, path: Seq<char>)
    ensures
        sort_ordered(docs, doc_after()).filter(|d: ScipDocumentV| d.0 == path) == docs.filter(
            |d: ScipDocumentV| d.0 == path,
        ),
{
    let after = doc_after();
    let p = |d: ScipDocumentV| d.0 == path;
    assert forall|a: ScipDocumentV, b: ScipDocumentV| #[trigger] after(a, b) && p(b) implies !p(a) by {
        chars_compared_flips(a.0, a.0);
    }
    sort_keeps_filter(docs, after, p);
}

} // verus!
