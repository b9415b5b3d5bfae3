//! The rules: conditions on a device's reported fields, and values to set.

use vstd::prelude::*;

use crate::json::{
    copy_fields, field_is, fields_eq, find_field, first_key_at, json_eq,
    lemma_first_key_unique, Fields, JsonValue,
};

verus! {

/// One rule of the configuration: when a device reports every field of
/// `condition` with an equal value, the fields of `values` are sent to it.
#[derive(Debug)]
pub struct ConfigClause {
    /// Name of the rule, reported when it matches.
    pub name: Option<String>,
    /// Field names and the values a device must report for the rule to apply.
    pub condition: Fields,
    /// Field names and the values to set on a matching device.
    pub values: Fields,
}

/// The name a clause is reported under: its own, or the empty text.
pub open spec fn clause_name(c: ConfigClause) -> Seq<char> {
    match c.name {
        Some(n) => n@,
        None => Seq::empty(),
    }
}

/// Every condition field is present in the payload with an equal value;
/// other payload fields do not matter.
pub open spec fn clause_matches(c: ConfigClause, payload: Seq<(String, JsonValue)>) -> bool {
    forall|k: int|
        #![trigger c.condition@[k]]
        0 <= k < c.condition@.len() ==> field_is(payload, c.condition@[k].0@, c.condition@[k].1)
}

/// `i` is the position of the first clause of `clauses` that matches `payload`.
pub open spec fn first_match_at(
    clauses: Seq<ConfigClause>,
    payload: Seq<(String, JsonValue)>,
    i: int,
) -> bool {
    &&& 0 <= i < clauses.len()
    &&& clause_matches(clauses[i], payload)
    &&& forall|j: int| 0 <= j < i ==> !clause_matches(#[trigger] clauses[j], payload)
}

/// No clause of `clauses` matches `payload`.
pub open spec fn none_match(clauses: Seq<ConfigClause>, payload: Seq<(String, JsonValue)>) -> bool {
    forall|j: int| 0 <= j < clauses.len() ==> !clause_matches(#[trigger] clauses[j], payload)
}

impl ConfigClause {
    /// Builds a clause from its parts.
    pub fn new(name: Option<String>, condition: Fields, values: Fields) -> (r: ConfigClause)
        ensures
            r == (ConfigClause { name, condition, values }),
    {
        ConfigClause { name, condition, values }
    }

    /// Tells whether the payload satisfies every condition of the clause.
    pub fn matches(&self, payload: &Fields) -> (r: bool)
        ensures
            r == clause_matches(*self, payload@),
    {
        let mut k: usize = 0;
        while k < self.condition.len()
            invariant
                k <= self.condition.len(),
                forall|m: int|
                    #![trigger self.condition@[m]]
                    0 <= m < k ==> field_is(payload@, self.condition@[m].0@, self.condition@[m].1),
            decreases self.condition.len() - k,
        {
            let key = &self.condition[k].0;
            let expected = &self.condition[k].1;
            match find_field(payload, key) {
                None => {
                    proof {
                        assert forall|i: int| !first_key_at(payload@, key@, i) by {
                            if 0 <= i < payload@.len() {
                                assert(payload@[i].0@ != key@);
                            }
                        }
                        assert(!clause_matches(*self, payload@)) by {
                            assert(self.condition@[k as int].0@ == key@);
                        }
                    }
                    return false;
                },
                Some(i) => {
                    if !payload[i].1.equals(expected) {
                        proof {
                            assert forall|j: int| #[trigger]
                                first_key_at(payload@, key@, j) implies !json_eq(
                                payload@[j].1,
                                *expected,
                            ) by {
                                lemma_first_key_unique(payload@, key@, i as int, j);
                            }
                            assert(!field_is(payload@, self.condition@[k as int].0@, self.condition@[k as int].1));
                        }
                        return false;
                    }
                    proof {
                        assert(first_key_at(payload@, key@, i as int));
                    }
                },
            }
            k = k + 1;
        }
        true
    }

    /// If the payload matches the clause, the rule's name and the values to
    /// set on the device.
    pub fn update_for(&self, payload: &Fields) -> (r: Option<(String, Fields)>)
        ensures
            r is Some <==> clause_matches(*self, payload@),
            r matches Some((n, v)) ==> n@ == clause_name(*self) && fields_eq(v@, self.values@),
    {
        if self.matches(payload) {
            let name = match &self.name {
                Some(n) => n.clone(),
                None => String::new(),
            };
            Some((name, copy_fields(&self.values)))
        } else {
            None
        }
    }
}

/// The position of the first clause, in configuration order, that matches
/// the payload.
pub fn first_match(clauses: &Vec<ConfigClause>, payload: &Fields) -> (r: Option<usize>)
    ensures
        match r {
            Some(i) => first_match_at(clauses@, payload@, i as int),
            None => none_match(clauses@, payload@),
        },
{
    let mut i: usize = 0;
    while i < clauses.len()
        invariant
            i <= clauses.len(),
            forall|j: int| 0 <= j < i ==> !clause_matches(#[trigger] clauses@[j], payload@),
        decreases clauses.len() - i,
    {
        if clauses[i].matches(payload) {
            return Some(i);
        }
        i = i + 1;
    }
    None
}

/// Evaluates the rules against a device payload: the name and values of the
/// first matching clause, or `None` when no clause matches.
pub fn evaluate(clauses: &Vec<ConfigClause>, payload: &Fields) -> (r: Option<(String, Fields)>)
    ensures
        r is None <==> none_match(clauses@, payload@),
        r matches Some((n, v)) ==> exists|i: int|
            #[trigger] first_match_at(clauses@, payload@, i) && n@ == clause_name(clauses@[i])
                && fields_eq(v@, clauses@[i].values@),
{
    match first_match(clauses, payload) {
        Some(i) => {
            let r = clauses[i].update_for(payload);
            proof {
                assert(first_match_at(clauses@, payload@, i as int));
            }
            r
        },
        None => None,
    }
}

/// A clause with no condition applies to every payload.
pub proof fn lemma_empty_condition_matches(c: ConfigClause, payload: Seq<(String, JsonValue)>)
    requires
        c.condition@.len() == 0,
    ensures
        clause_matches(c, payload),
{
}

} // verus!
