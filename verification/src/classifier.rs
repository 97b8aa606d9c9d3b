//! A table-driven effect classifier.
//!
//! The analysis is parametric over how operations are classified; this
//! classifier answers from a fixed table, which is all synthetic programs
//! and tests need.  A production classifier derives the table's content
//! from the concrete operation registry instead.

use vstd::prelude::*;

use crate::program::LibfuncId;
use crate::{ApChange, ApChangeClassifier, ClassifierError, RegistryError};

verus! {

/// A classifier that answers from a fixed table.
///
/// An entry `(id, Some(changes))` classifies the operation `id` with one
/// classification per branch; an entry `(id, None)` marks `id` as an
/// operation this analysis does not recognize.  An operation with no entry
/// at all is a failed registry lookup.
pub struct TableClassifier {
    /// The table; the first entry for an identity wins.
    pub entries: Vec<(LibfuncId, Option<Vec<ApChange>>)>,
}

/// The answer the table gives for an operation identity.
pub open spec fn table_classify(
    entries: Seq<(LibfuncId, Option<Vec<ApChange>>)>,
    libfunc: LibfuncId,
) -> Result<Seq<ApChange>, ClassifierError>
    decreases entries.len(),
{
    if entries.len() == 0 {
        Err(ClassifierError::Lookup(RegistryError::MissingLibfunc(libfunc)))
    } else if entries[0].0 == libfunc {
        match entries[0].1 {
            Some(v) => Ok(v@),
            None => Err(ClassifierError::Unsupported),
        }
    } else {
        table_classify(entries.drop_first(), libfunc)
    }
}

/// Copies a list of classifications.
fn copy_changes(v: &Vec<ApChange>) -> (r: Vec<ApChange>)
    ensures
        r@ == v@,
{
    let mut r: Vec<ApChange> = Vec::new();
    let mut i: usize = 0;
    while i < v.len()
        invariant
            i <= v@.len(),
            r@ == v@.take(i as int),
        decreases v@.len() - i,
    {
        r.push(v[i]);
        proof {
            assert(v@.take(i as int + 1) =~= v@.take(i as int).push(v@[i as int]));
        }
        i = i + 1;
    }
    proof {
        assert(v@.take(v@.len() as int) =~= v@);
    }
    r
}

impl ApChangeClassifier for TableClassifier {
    open spec fn spec_classify(&self, libfunc: LibfuncId) -> Result<Seq<ApChange>, ClassifierError> {
        table_classify(self.entries@, libfunc)
    }

    fn libfunc_ap_change(&self, libfunc: LibfuncId) -> (r: Result<Vec<ApChange>, ClassifierError>) {
        let n = self.entries.len();
        let mut i: usize = 0;
        proof {
            assert(self.entries@.skip(0) =~= self.entries@);
        }
        while i < n
            invariant
                n == self.entries@.len(),
                i <= n,
                table_classify(self.entries@, libfunc) == table_classify(
                    self.entries@.skip(i as int),
                    libfunc,
                ),
            decreases n - i,
        {
            proof {
                assert(self.entries@.skip(i as int)[0] == self.entries@[i as int]);
                assert(self.entries@.skip(i as int).drop_first() =~= self.entries@.skip(
                    i as int + 1,
                ));
            }
            if self.entries[i].0 == libfunc {
                return match &self.entries[i].1 {
                    Some(v) => Ok(copy_changes(v)),
                    None => Err(ClassifierError::Unsupported),
                };
            }
            i = i + 1;
        }
        proof {
            assert(self.entries@.skip(n as int) =~= Seq::<(
                LibfuncId,
                Option<Vec<ApChange>>,
            )>::empty());
        }
        Err(ClassifierError::Lookup(RegistryError::MissingLibfunc(libfunc)))
    }
}

/// Every classification a table answers with comes from one of its entries.
proof fn lemma_table_classify_from_entry(
    entries: Seq<(LibfuncId, Option<Vec<ApChange>>)>,
    libfunc: LibfuncId,
)
    ensures
        table_classify(entries, libfunc) matches Ok(s) ==> exists|i: int|
            0 <= i < entries.len() && ((#[trigger] entries[i]).1 matches Some(v) && v@ == s),
    decreases entries.len(),
{
    if entries.len() > 0 && entries[0].0 != libfunc {
        lemma_table_classify_from_entry(entries.drop_first(), libfunc);
        match table_classify(entries.drop_first(), libfunc) {
            Ok(s) => {
                let i = choose|i: int|
                    0 <= i < entries.drop_first().len() && ((#[trigger] entries.drop_first()[i]).1
                        matches Some(v) && v@ == s);
                assert(entries[i + 1] == entries.drop_first()[i]);
            },
            Err(_) => {},
        }
    }
}

/// A table whose entries' classifications all stay within the accepted step
/// bound is a bounded classifier, so it can drive the analysis.
pub proof fn lemma_table_classifier_bounded(t: TableClassifier)
    requires
        forall|i: int|
            0 <= i < t.entries@.len() ==> match (#[trigger] t.entries@[i]).1 {
                Some(v) => forall|j: int|
                    0 <= j < v@.len() ==> crate::generate_equations::bounded_change(
                        #[trigger] v@[j],
                    ),
                None => true,
            },
    ensures
        crate::generate_equations::bounded_classifier(t),
{
    assert forall|l: LibfuncId| match #[trigger] t.spec_classify(l) {
        Ok(s) => forall|j: int|
            0 <= j < s.len() ==> crate::generate_equations::bounded_change(#[trigger] s[j]),
        Err(_) => true,
    } by {
        lemma_table_classify_from_entry(t.entries@, l);
        match t.spec_classify(l) {
            Ok(s) => {
                let i = choose|i: int|
                    0 <= i < t.entries@.len() && ((#[trigger] t.entries@[i]).1 matches Some(v)
                        && v@ == s);
                assert(t.entries@[i].1 matches Some(v) && v@ == s);
            },
            Err(_) => {},
        }
    }
}

} // verus!
