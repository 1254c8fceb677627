//! The custom field collector: caller-attached key/value context gathered
//! into an order-independent mapping from field name to stringified value.
//!
//! The collection is kept in strictly increasing key order, which makes the
//! output deterministic (a canonical order for reproducible documents) and
//! makes the keys unique, with last-write-wins on repeated insertion.

use crate::decimal::{i64_to_decimal, signed_decimal_digits};
use crate::order::{lemma_lex_lt_connected, lemma_lex_lt_transitive, lex_lt, str_lex_lt};
use vstd::prelude::*;
use vstd::string::StringExecFns;

verus! {

/// A caller-attached structured value: the closed set of shapes a custom
/// field can carry.  Values of other shapes are rendered to their display
/// string by the caller and carried as `Str`.
#[derive(Clone, Debug)]
pub enum FieldValue {
    Str(String),
    Int(i64),
    Bool(bool),
}

/// The natural display form of a field value, as it appears in the output
/// document.
pub open spec fn spec_display(v: FieldValue) -> Seq<char> {
    match v {
        FieldValue::Str(s) => s@,
        FieldValue::Int(n) => signed_decimal_digits(n as int),
        FieldValue::Bool(b) => if b {
            "true"@
        } else {
            "false"@
        },
    }
}

impl FieldValue {
    /// Stringifies the value using its natural display form.
    pub fn to_display_string(&self) -> (r: String)
        ensures
            r@ == spec_display(*self),
    {
        match self {
            FieldValue::Str(s) => s.clone(),
            FieldValue::Int(n) => i64_to_decimal(*n),
            FieldValue::Bool(b) => {
                proof {
                    reveal_strlit("true");
                    reveal_strlit("false");
                }
                if *b {
                    "true".to_owned()
                } else {
                    "false".to_owned()
                }
            },
        }
    }
}

/// Keys strictly increase along the sequence of collected pairs; this also
/// makes every key unique.
pub open spec fn sorted_keys(s: Seq<(Seq<char>, Seq<char>)>) -> bool {
    forall|i: int, j: int| 0 <= i < j < s.len() ==> lex_lt(s[i].0, s[j].0)
}

/// The collected custom fields of one event: field names mapped to their
/// values, held in strictly increasing key order.
#[derive(Clone, Debug)]
pub struct CustomFields {
    entries: Vec<(String, FieldValue)>,
}

impl View for CustomFields {
    type V = Seq<(Seq<char>, Seq<char>)>;

    /// The collected fields as (name, displayed value) pairs, in key order.
    closed spec fn view(&self) -> Seq<(Seq<char>, Seq<char>)> {
        self.entries@.map_values(|e: (String, FieldValue)| (e.0@, spec_display(e.1)))
    }
}

impl CustomFields {
    /// The collection is well formed: its keys strictly increase.
    pub open spec fn wf(&self) -> bool {
        sorted_keys(self@)
    }

    /// The pair (name, displayed value) was collected.
    pub open spec fn spec_has(&self, k: Seq<char>, v: Seq<char>) -> bool {
        self@.contains((k, v))
    }

    /// Some value was collected under this name.
    pub open spec fn spec_has_key(&self, k: Seq<char>) -> bool {
        exists|i: int| 0 <= i < self@.len() && self@[i].0 == k
    }

    /// An empty collection.
    pub fn new() -> (r: Self)
        ensures
            r@ == Seq::<(Seq<char>, Seq<char>)>::empty(),
            r.wf(),
    {
        let r = CustomFields { entries: Vec::new() };
        proof {
            assert(r@ =~= Seq::<(Seq<char>, Seq<char>)>::empty());
        }
        r
    }

    /// The collected pairs, in key order.
    pub fn inner(&self) -> (r: &Vec<(String, FieldValue)>)
        ensures
            r@.len() == self@.len(),
            forall|i: int|
                0 <= i < r@.len() ==> (#[trigger] r@[i]).0@ == self@[i].0 && spec_display(r@[i].1)
                    == self@[i].1,
    {
        &self.entries
    }

    /// Collects one pair: the value is recorded under the name, replacing
    /// any value previously recorded under it (last write wins), and every
    /// other name keeps exactly the pairs it had.
    pub fn visit_pair(&mut self, key: String, value: FieldValue)
        requires
            old(self).wf(),
        ensures
            final(self).wf(),
            final(self).spec_has_key(key@),
            forall|v: Seq<char>|
                final(self).spec_has(key@, v) <==> v == spec_display(value),
            forall|k: Seq<char>, v: Seq<char>|
                k != key@ ==> (final(self).spec_has(k, v) <==> old(self).spec_has(k, v)),
    {
        let ghost old_view = self@;
        let mut p: usize = 0;
        loop
            invariant
                p <= self.entries.len(),
                self == old(self),
                old_view == self@,
                forall|j: int| 0 <= j < p ==> lex_lt(#[trigger] old_view[j].0, key@),
            ensures
                p <= self.entries.len(),
                self == old(self),
                old_view == self@,
                forall|j: int| 0 <= j < p ==> lex_lt(#[trigger] old_view[j].0, key@),
                p < self.entries.len() ==> !lex_lt(old_view[p as int].0, key@),
            decreases self.entries.len() - p,
        {
            if p == self.entries.len() {
                break;
            }
            proof {
                assert(old_view[p as int].0 == self.entries@[p as int].0@);
            }
            if str_lex_lt(self.entries[p].0.as_str(), key.as_str()) {
                p = p + 1;
            } else {
                break;
            }
        }
        let ghost display = spec_display(value);
        let ghost pi = p as int;
        if p < self.entries.len() && self.entries[p].0 == key {
            proof {
                assert(old_view[pi].0 == key@);
            }
            self.entries[p] = (key, value);
            proof {
                assert(self@ =~= old_view.update(pi, (key@, display)));
                lemma_collect_update(old_view, self@, pi, key@, display);
            }
        } else {
            proof {
                if p < old_view.len() {
                    // the scan stopped before the end: the key there is
                    // strictly above the inserted one
                    assert(!lex_lt(old_view[pi].0, key@));
                    if old_view[pi].0 != key@ {
                        lemma_lex_lt_connected(old_view[pi].0, key@);
                    }
                    assert(lex_lt(key@, old_view[pi].0));
                }
            }
            self.entries.insert(p, (key, value));
            proof {
                assert(self@ =~= old_view.insert(pi, (key@, display)));
                lemma_collect_insert(old_view, self@, pi, key@, display);
            }
        }
    }
}

/// Replacing the pair at a position whose key already is `k` keeps the keys
/// sorted and changes exactly the value recorded under `k`.
proof fn lemma_collect_update(
    s: Seq<(Seq<char>, Seq<char>)>,
    t: Seq<(Seq<char>, Seq<char>)>,
    p: int,
    k: Seq<char>,
    v: Seq<char>,
)
    requires
        sorted_keys(s),
        0 <= p < s.len(),
        s[p].0 == k,
        t == s.update(p, (k, v)),
    ensures
        sorted_keys(t),
        exists|i: int| 0 <= i < t.len() && #[trigger] t[i].0 == k,
        forall|w: Seq<char>| t.contains((k, w)) <==> w == v,
        forall|k2: Seq<char>, w: Seq<char>|
            k2 != k ==> (t.contains((k2, w)) <==> s.contains((k2, w))),
{
    lemma_sorted_key_unique(s, p, k);
    assert(sorted_keys(t)) by {
        assert forall|i: int, j: int| 0 <= i < j < t.len() implies lex_lt(t[i].0, t[j].0) by {
            assert(lex_lt(s[i].0, s[j].0));
        }
    }
    assert(t[p].0 == k);
    assert forall|w: Seq<char>| t.contains((k, w)) implies w == v by {
        let i = choose|i: int| 0 <= i < t.len() && t[i] == (k, w);
        if i != p {
            assert(s[i].0 == k);
        }
    }
    assert(t.contains((k, v))) by {
        assert(t[p] == (k, v));
    }
    assert forall|k2: Seq<char>, w: Seq<char>| k2 != k implies (t.contains((k2, w))
        <==> s.contains((k2, w))) by {
        if t.contains((k2, w)) {
            let i = choose|i: int| 0 <= i < t.len() && t[i] == (k2, w);
            assert(s[i] == (k2, w));
        }
        if s.contains((k2, w)) {
            let i = choose|i: int| 0 <= i < s.len() && s[i] == (k2, w);
            assert(t[i] == (k2, w));
        }
    }
}

/// Inserting a pair between the keys below its own and the keys above it
/// keeps the keys sorted and adds exactly that pair.
proof fn lemma_collect_insert(
    s: Seq<(Seq<char>, Seq<char>)>,
    t: Seq<(Seq<char>, Seq<char>)>,
    p: int,
    k: Seq<char>,
    v: Seq<char>,
)
    requires
        sorted_keys(s),
        0 <= p <= s.len(),
        forall|j: int| 0 <= j < p ==> lex_lt(#[trigger] s[j].0, k),
        p < s.len() ==> lex_lt(k, s[p].0),
        t == s.insert(p, (k, v)),
    ensures
        sorted_keys(t),
        exists|i: int| 0 <= i < t.len() && #[trigger] t[i].0 == k,
        forall|w: Seq<char>| t.contains((k, w)) <==> w == v,
        forall|k2: Seq<char>, w: Seq<char>|
            k2 != k ==> (t.contains((k2, w)) <==> s.contains((k2, w))),
{
    assert forall|j: int| p < j < t.len() implies lex_lt(k, t[j].0) by {
        if j - 1 > p {
            assert(lex_lt(s[p].0, s[j - 1].0));
            lemma_lex_lt_transitive(k, s[p].0, s[j - 1].0);
        }
        assert(t[j] == s[j - 1]);
    }
    assert(sorted_keys(t)) by {
        assert forall|i: int, j: int| 0 <= i < j < t.len() implies lex_lt(t[i].0, t[j].0) by {
            if j < p {
                assert(t[i] == s[i] && t[j] == s[j]);
            } else if i > p {
                assert(t[i] == s[i - 1] && t[j] == s[j - 1]);
            } else if i < p && j == p {
                assert(t[i] == s[i]);
                assert(lex_lt(s[i].0, k));
            } else if i == p {
                assert(lex_lt(k, t[j].0));
            } else {
                assert(t[i] == s[i] && t[j] == s[j - 1]);
                if i < p && j > p {
                    assert(lex_lt(s[i].0, k));
                    if j - 1 == p {
                        assert(lex_lt(k, s[p].0));
                        lemma_lex_lt_transitive(s[i].0, k, s[p].0);
                    } else {
                        assert(lex_lt(s[i].0, s[j - 1].0));
                    }
                }
            }
        }
    }
    assert(t[p].0 == k);
    lemma_sorted_key_unique(t, p, k);
    assert forall|w: Seq<char>| t.contains((k, w)) implies w == v by {
        let i = choose|i: int| 0 <= i < t.len() && t[i] == (k, w);
        assert(t[i].0 == k);
        assert(t[p] == (k, v));
    }
    assert(t.contains((k, v))) by {
        assert(t[p] == (k, v));
    }
    assert forall|k2: Seq<char>, w: Seq<char>| k2 != k implies (t.contains((k2, w))
        <==> s.contains((k2, w))) by {
        if t.contains((k2, w)) {
            let i = choose|i: int| 0 <= i < t.len() && t[i] == (k2, w);
            if i < p {
                assert(s[i] == (k2, w));
            } else {
                assert(i != p);
                assert(s[i - 1] == (k2, w));
            }
        }
        if s.contains((k2, w)) {
            let i = choose|i: int| 0 <= i < s.len() && s[i] == (k2, w);
            if i < p {
                assert(t[i] == (k2, w));
            } else {
                assert(t[i + 1] == (k2, w));
            }
        }
    }
}

/// In a sorted collection only one position can carry a given key.
proof fn lemma_sorted_key_unique(s: Seq<(Seq<char>, Seq<char>)>, p: int, k: Seq<char>)
    requires
        sorted_keys(s),
        0 <= p < s.len(),
        s[p].0 == k,
    ensures
        forall|i: int| 0 <= i < s.len() && #[trigger] s[i].0 == k ==> i == p,
{
    assert forall|i: int| 0 <= i < s.len() && #[trigger] s[i].0 == k implies i == p by {
        if i < p {
            assert(lex_lt(s[i].0, s[p].0));
            crate::order::lemma_lex_lt_irreflexive(k);
        } else if i > p {
            assert(lex_lt(s[p].0, s[i].0));
            crate::order::lemma_lex_lt_irreflexive(k);
        }
    }
}

} // verus!
