use vstd::prelude::*;
use core::cmp::Ordering;
use vstd::std_specs::cmp::{PartialEqSpec, PartialEqSpecImpl, PartialOrdSpec, PartialOrdSpecImpl};

use crate::order::compare_keys;
use crate::record::BhavRecord;
use crate::order::lemma_lex_eq;
use crate::record_key::record_key;
use crate::record_order::{field_compare, lemma_record_compare_by_fields};
use crate::record_set::{lemma_record_compare_basics, record_compare};

verus! {

// `==` and `<` on records go by their keys: field by field, with prices compared as numbers.

impl PartialEq for BhavRecord {
    fn eq(&self, other: &Self) -> (res: bool) {
        compare_keys(&self.sort_key(), &other.sort_key()) == 0
    }
}

impl PartialEqSpecImpl for BhavRecord {
    open spec fn obeys_eq_spec() -> bool {
        true
    }

    open spec fn eq_spec(&self, other: &Self) -> bool {
        record_compare(*self, *other) == 0
    }
}

impl PartialOrd for BhavRecord {
    fn partial_cmp(&self, other: &Self) -> (res: Option<Ordering>) {
        let c = compare_keys(&self.sort_key(), &other.sort_key());
        if c < 0 {
            Some(Ordering::Less)
        } else if c > 0 {
            Some(Ordering::Greater)
        } else {
            Some(Ordering::Equal)
        }
    }
}

impl PartialOrdSpecImpl for BhavRecord {
    open spec fn obeys_partial_cmp_spec() -> bool {
        true
    }

    open spec fn partial_cmp_spec(&self, other: &Self) -> Option<Ordering> {
        let c = record_compare(*self, *other);
        if c < 0 {
            Some(Ordering::Less)
        } else if c > 0 {
            Some(Ordering::Greater)
        } else {
            Some(Ordering::Equal)
        }
    }
}

/// `==` on records is equality field by field, prices compared as the numbers they denote: it
/// holds exactly when no field tells the records apart, so it is symmetric and holds of
/// records with the same fields. `partial_cmp` orders records by their first differing field.
pub proof fn lemma_record_eq_by_fields(a: BhavRecord, b: BhavRecord)
    ensures
        PartialEqSpec::eq_spec(&a, &b) <==> field_compare(a, b) == 0,
        PartialEqSpec::eq_spec(&a, &b) == PartialEqSpec::eq_spec(&b, &a),
        a@ == b@ ==> PartialEqSpec::eq_spec(&a, &b),
        (PartialOrdSpec::partial_cmp_spec(&a, &b) == Some(Ordering::Less)) <==> field_compare(a, b) < 0,
        (PartialOrdSpec::partial_cmp_spec(&a, &b) == Some(Ordering::Equal)) <==> field_compare(a, b) == 0,
        (PartialOrdSpec::partial_cmp_spec(&a, &b) == Some(Ordering::Greater)) <==> field_compare(a, b) > 0,
        (PartialOrdSpec::partial_cmp_spec(&a, &b) == Some(Ordering::Less)) <==> (PartialOrdSpec::partial_cmp_spec(&b, &a) == Some(Ordering::Greater)),
{
    lemma_record_compare_by_fields(a, b);
    lemma_record_compare_basics(a, b);
    if a@ == b@ {
        reveal(record_key);
        assert(record_key(a) == record_key(b));
        lemma_lex_eq(record_key(a), record_key(b));
    }
}

} // verus!
