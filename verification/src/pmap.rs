//! An ordered mapping from parameter names to optional scalar values.
//!
//! Keys are kept strictly ascending in bytewise (UTF-8) order, so two
//! logically equal parameter sets have identical entry sequences and
//! therefore serialize and hash identically.

use vstd::prelude::*;
use vstd::utf8::encode_utf8;
use crate::params::Parameter;
use crate::params::ParamModel;

verus! {

/// Bytewise lexicographic strict order on byte strings; the order `BTreeMap`
/// keyed by `String` iterates in.
pub open spec fn bytes_lt(a: Seq<u8>, b: Seq<u8>) -> bool
    decreases a.len(),
{
    if b.len() == 0 {
        false
    } else if a.len() == 0 {
        true
    } else if a[0] < b[0] {
        true
    } else if a[0] > b[0] {
        false
    } else {
        bytes_lt(a.drop_first(), b.drop_first())
    }
}

pub proof fn lemma_bytes_lt_irrefl(a: Seq<u8>)
    ensures
        !bytes_lt(a, a),
    decreases a.len(),
{
    if a.len() > 0 {
        lemma_bytes_lt_irrefl(a.drop_first());
    }
}

/// Two byte strings that neither precede one another are equal.
pub proof fn lemma_bytes_lt_connex(a: Seq<u8>, b: Seq<u8>)
    ensures
        !bytes_lt(a, b) && !bytes_lt(b, a) ==> a == b,
    decreases a.len(),
{
    if a.len() > 0 && b.len() > 0 && !bytes_lt(a, b) && !bytes_lt(b, a) {
        lemma_bytes_lt_connex(a.drop_first(), b.drop_first());
        assert(a[0] == b[0]);
        assert(a == seq![a[0]] + a.drop_first());
        assert(b == seq![b[0]] + b.drop_first());
    }
}

pub proof fn lemma_bytes_lt_trans(a: Seq<u8>, b: Seq<u8>, c: Seq<u8>)
    ensures
        bytes_lt(a, b) && bytes_lt(b, c) ==> bytes_lt(a, c),
    decreases a.len(),
{
    if a.len() > 0 && b.len() > 0 && c.len() > 0 {
        lemma_bytes_lt_trans(a.drop_first(), b.drop_first(), c.drop_first());
    }
}

/// UTF-8 encoding is injective: equal encodings come from equal strings.
pub proof fn lemma_utf8_injective(a: Seq<char>, b: Seq<char>)
    ensures
        encode_utf8(a) == encode_utf8(b) ==> a == b,
{
    if encode_utf8(a) == encode_utf8(b) {
        vstd::utf8::encode_utf8_decode_utf8(a);
        vstd::utf8::encode_utf8_decode_utf8(b);
    }
}

/// One entry of the mapping: a parameter name and its optional value.
#[derive(PartialEq, Debug)]
pub struct ParamEntry {
    pub key: String,
    pub value: Option<Parameter>,
}

impl View for ParamEntry {
    type V = (Seq<char>, Option<ParamModel>);

    open spec fn view(&self) -> (Seq<char>, Option<ParamModel>) {
        (self.key@, self.value.deep_view())
    }
}

impl DeepView for ParamEntry {
    type V = (Seq<char>, Option<ParamModel>);

    open spec fn deep_view(&self) -> (Seq<char>, Option<ParamModel>) {
        self.view()
    }
}

/// The value the mapping holds at `k`: `None` when the key is absent,
/// `Some(v)` when it is present with (optional) value `v`.
pub open spec fn pm_get(m: Seq<(Seq<char>, Option<ParamModel>)>, k: Seq<char>) -> Option<
    Option<ParamModel>,
>
    decreases m.len(),
{
    if m.len() == 0 {
        Option::None
    } else if m[0].0 == k {
        Option::Some(m[0].1)
    } else {
        pm_get(m.drop_first(), k)
    }
}

/// The key is bound in the mapping exactly when some entry carries it.
pub proof fn lemma_pm_get_some_iff(m: Seq<(Seq<char>, Option<ParamModel>)>, k: Seq<char>)
    ensures
        pm_get(m, k) is Some <==> exists|i: int| 0 <= i < m.len() && (#[trigger] m[i]).0 == k,
    decreases m.len(),
{
    if m.len() > 0 {
        lemma_pm_get_some_iff(m.drop_first(), k);
        if m[0].0 != k && pm_get(m, k) is Some {
            let i = choose|i: int|
                0 <= i < m.drop_first().len() && (#[trigger] m.drop_first()[i]).0 == k;
            assert(m[i + 1].0 == k);
        }
        if exists|i: int| 0 <= i < m.len() && (#[trigger] m[i]).0 == k {
            let i = choose|i: int| 0 <= i < m.len() && (#[trigger] m[i]).0 == k;
            if m[0].0 != k {
                assert(m.drop_first()[i - 1].0 == k);
            }
        }
    }
}

/// If the entry at `i` carries key `k` and every earlier entry does not,
/// `pm_get` returns that entry's value.
pub proof fn lemma_pm_get_at(m: Seq<(Seq<char>, Option<ParamModel>)>, k: Seq<char>, i: int)
    requires
        0 <= i < m.len(),
        m[i].0 == k,
        forall|j: int| 0 <= j < i ==> (#[trigger] m[j]).0 != k,
    ensures
        pm_get(m, k) == Option::Some(m[i].1),
    decreases i,
{
    if i > 0 {
        lemma_pm_get_at(m.drop_first(), k, i - 1);
    }
}

/// Keys strictly ascending in bytewise order; this also makes them unique.
pub open spec fn pm_sorted(m: Seq<(Seq<char>, Option<ParamModel>)>) -> bool {
    forall|i: int, j: int|
        0 <= i < j < m.len() ==> bytes_lt(
            encode_utf8((#[trigger] m[i]).0),
            encode_utf8((#[trigger] m[j]).0),
        )
}

/// Insertion into the ordered mapping: an existing binding of the same key
/// is replaced, otherwise the new entry lands at its ordered position.
pub open spec fn pm_insert(
    m: Seq<(Seq<char>, Option<ParamModel>)>,
    k: Seq<char>,
    v: Option<ParamModel>,
) -> Seq<(Seq<char>, Option<ParamModel>)>
    decreases m.len(),
{
    if m.len() == 0 {
        seq![(k, v)]
    } else if bytes_lt(encode_utf8(k), encode_utf8(m[0].0)) {
        seq![(k, v)] + m
    } else if encode_utf8(k) == encode_utf8(m[0].0) {
        seq![(k, v)] + m.drop_first()
    } else {
        seq![m[0]] + pm_insert(m.drop_first(), k, v)
    }
}

/// `pm_insert` keeps the mapping sorted and binds `k` to `v`, leaving every
/// other key unchanged.
pub proof fn lemma_pm_insert_sorted(
    m: Seq<(Seq<char>, Option<ParamModel>)>,
    k: Seq<char>,
    v: Option<ParamModel>,
)
    requires
        pm_sorted(m),
    ensures
        pm_sorted(pm_insert(m, k, v)),
        pm_get(pm_insert(m, k, v), k) == Option::Some(v),
        forall|k2: Seq<char>| k2 != k ==> pm_get(pm_insert(m, k, v), k2) == pm_get(m, k2),
    decreases m.len(),
{
    let r = pm_insert(m, k, v);
    let kb = encode_utf8(k);
    if m.len() == 0 {
        assert forall|k2: Seq<char>| k2 != k implies pm_get(r, k2) == pm_get(m, k2) by {
            assert(r.drop_first() =~= m);
            assert(pm_get(r, k2) == pm_get(m, k2));
        }
    } else {
        let hb = encode_utf8(m[0].0);
        if bytes_lt(kb, hb) {
            assert(r == seq![(k, v)] + m);
            assert(r.drop_first() =~= m);
            assert forall|k2: Seq<char>| k2 != k implies pm_get(r, k2) == pm_get(m, k2) by {
                assert(r[0].0 == k);
                assert(pm_get(r, k2) == pm_get(r.drop_first(), k2));
            }
            assert forall|i: int, j: int| 0 <= i < j < r.len() implies bytes_lt(
                encode_utf8((#[trigger] r[i]).0),
                encode_utf8((#[trigger] r[j]).0),
            ) by {
                if i == 0 {
                    if j > 1 {
                        lemma_bytes_lt_trans(kb, hb, encode_utf8(m[j - 1].0));
                    }
                } else {
                    assert(r[i] == m[i - 1] && r[j] == m[j - 1]);
                }
            }
        } else if kb == hb {
            lemma_utf8_injective(k, m[0].0);
            assert(r == seq![(k, v)] + m.drop_first());
            assert(r.drop_first() =~= m.drop_first());
            assert forall|i: int, j: int| 0 <= i < j < r.len() implies bytes_lt(
                encode_utf8((#[trigger] r[i]).0),
                encode_utf8((#[trigger] r[j]).0),
            ) by {
                if i == 0 {
                    assert(r[j] == m.drop_first()[j - 1]);
                    assert(bytes_lt(encode_utf8(m[0].0), encode_utf8(m[j].0)));
                } else {
                    assert(r[i] == m[i] && r[j] == m[j]);
                }
            }
            assert forall|k2: Seq<char>| k2 != k implies pm_get(r, k2) == pm_get(m, k2) by {
                assert(pm_get(r, k2) == pm_get(m.drop_first(), k2));
                assert(pm_get(m, k2) == pm_get(m.drop_first(), k2));
            }
        } else {
            lemma_bytes_lt_connex(kb, hb);
            assert(bytes_lt(hb, kb));
            lemma_pm_insert_sorted(m.drop_first(), k, v);
            let t = pm_insert(m.drop_first(), k, v);
            assert(r == seq![m[0]] + t);
            assert(r.drop_first() =~= t);
            lemma_bytes_lt_irrefl(kb);
            assert(m[0].0 != k);
            // Every key of t is either k or a key of m.drop_first(); in both
            // cases the head key precedes it.
            assert forall|i: int, j: int| 0 <= i < j < r.len() implies bytes_lt(
                encode_utf8((#[trigger] r[i]).0),
                encode_utf8((#[trigger] r[j]).0),
            ) by {
                if i == 0 {
                    lemma_pm_insert_key_set(m.drop_first(), k, v, j - 1);
                } else {
                    assert(r[i] == t[i - 1] && r[j] == t[j - 1]);
                }
            }
            assert forall|k2: Seq<char>| k2 != k implies pm_get(r, k2) == pm_get(m, k2) by {
                if m[0].0 != k2 {
                    assert(pm_get(r, k2) == pm_get(t, k2));
                    assert(pm_get(m, k2) == pm_get(m.drop_first(), k2));
                }
            }
        }
    }
}

/// Every entry of `pm_insert(m, k, v)` carries either `k` or a key of `m`.
proof fn lemma_pm_insert_key_set(
    m: Seq<(Seq<char>, Option<ParamModel>)>,
    k: Seq<char>,
    v: Option<ParamModel>,
    i: int,
)
    requires
        0 <= i < pm_insert(m, k, v).len(),
    ensures
        pm_insert(m, k, v)[i].0 == k || exists|j: int|
            0 <= j < m.len() && (#[trigger] m[j]).0 == pm_insert(m, k, v)[i].0,
    decreases m.len(),
{
    let r = pm_insert(m, k, v);
    let kb = encode_utf8(k);
    if m.len() == 0 {
    } else {
        let hb = encode_utf8(m[0].0);
        if bytes_lt(kb, hb) {
            if i > 0 {
                assert(r[i] == m[i - 1]);
            }
        } else if kb == hb {
            if i > 0 {
                assert(r[i] == m.drop_first()[i - 1]);
                assert(m[i].0 == r[i].0);
            }
        } else {
            if i == 0 {
                assert(r[0] == m[0]);
            } else {
                lemma_pm_insert_key_set(m.drop_first(), k, v, i - 1);
                let t = pm_insert(m.drop_first(), k, v);
                assert(r[i] == t[i - 1]);
                if t[i - 1].0 != k {
                    let j = choose|j: int|
                        0 <= j < m.drop_first().len() && (#[trigger] m.drop_first()[j]).0 == t[i
                            - 1].0;
                    assert(m[j + 1].0 == t[i - 1].0);
                }
            }
        }
    }
}

/// Compares two byte slices in bytewise lexicographic order.
pub fn bytes_less(a: &[u8], b: &[u8]) -> (r: bool)
    ensures
        r == bytes_lt(a@, b@),
{
    let mut i: usize = 0;
    proof {
        lemma_bytes_lt_skip(a@, b@, 0);
    }
    loop
        invariant
            i <= a@.len(),
            i <= b@.len(),
            forall|j: int| 0 <= j < i ==> a@[j] == b@[j],
            bytes_lt(a@, b@) == bytes_lt(a@.skip(i as int), b@.skip(i as int)),
        decreases a@.len() - i,
    {
        if i >= b.len() {
            return false;
        }
        if i >= a.len() {
            return true;
        }
        let x: u8 = *vstd::slice::slice_index_get(a, i);
        let y: u8 = *vstd::slice::slice_index_get(b, i);
        if x < y {
            return true;
        }
        if x > y {
            return false;
        }
        i = i + 1;
        proof {
            lemma_bytes_lt_skip(a@, b@, i as int);
        }
    }
}

/// With equal prefixes of length `i`, the order is decided by the suffixes.
proof fn lemma_bytes_lt_skip(a: Seq<u8>, b: Seq<u8>, i: int)
    requires
        0 <= i <= a.len(),
        0 <= i <= b.len(),
        forall|j: int| 0 <= j < i ==> a[j] == b[j],
    ensures
        bytes_lt(a, b) == bytes_lt(a.skip(i), b.skip(i)),
    decreases i,
{
    if i > 0 {
        lemma_bytes_lt_skip(a.drop_first(), b.drop_first(), i - 1);
        assert(a.drop_first().skip(i - 1) =~= a.skip(i));
        assert(b.drop_first().skip(i - 1) =~= b.skip(i));
        assert(a.len() > 0 && b.len() > 0 && a[0] == b[0]);
    } else {
        assert(a.skip(0) =~= a);
        assert(b.skip(0) =~= b);
    }
}

/// Compares two strings in bytewise order on their UTF-8 encodings.
pub fn str_less(a: &str, b: &str) -> (r: bool)
    ensures
        r == bytes_lt(encode_utf8(a@), encode_utf8(b@)),
{
    bytes_less(a.as_bytes(), b.as_bytes())
}

/// Whether two byte slices hold the same bytes.
pub fn bytes_equal(a: &[u8], b: &[u8]) -> (r: bool)
    ensures
        r == (a@ == b@),
{
    if a.len() != b.len() {
        return false;
    }
    let n: usize = a.len();
    let mut i: usize = 0;
    while i < n
        invariant
            n == a@.len() == b@.len(),
            i <= n,
            forall|j: int| 0 <= j < i ==> a@[j] == b@[j],
        decreases n - i,
    {
        if *vstd::slice::slice_index_get(a, i) != *vstd::slice::slice_index_get(b, i) {
            return false;
        }
        i = i + 1;
    }
    proof {
        assert(a@ =~= b@);
    }
    true
}

/// Whether two strings are equal, decided bytewise.
pub fn str_equal(a: &str, b: &str) -> (r: bool)
    ensures
        r == (a@ == b@),
{
    let r = bytes_equal(a.as_bytes(), b.as_bytes());
    proof {
        lemma_utf8_injective(a@, b@);
    }
    r
}

/// An ordered mapping from parameter names to optional scalar values, keys
/// strictly ascending bytewise.
#[derive(PartialEq, Debug)]
pub struct ParamMap {
    pub entries: Vec<ParamEntry>,
}

impl View for ParamMap {
    type V = Seq<(Seq<char>, Option<ParamModel>)>;

    open spec fn view(&self) -> Seq<(Seq<char>, Option<ParamModel>)> {
        self.entries.deep_view()
    }
}

impl DeepView for ParamMap {
    type V = Seq<(Seq<char>, Option<ParamModel>)>;

    open spec fn deep_view(&self) -> Seq<(Seq<char>, Option<ParamModel>)> {
        self.view()
    }
}

impl ParamMap {
    /// Well-formed: keys strictly ascending bytewise, hence unique.
    pub open spec fn wf(&self) -> bool {
        pm_sorted(self@)
    }

    /// The empty mapping.
    pub fn new() -> (r: ParamMap)
        ensures
            r@ == Seq::<(Seq<char>, Option<ParamModel>)>::empty(),
            r.wf(),
    {
        let r = ParamMap { entries: Vec::new() };
        proof {
            assert(r@ =~= Seq::<(Seq<char>, Option<ParamModel>)>::empty());
        }
        r
    }

    /// How many parameters the mapping holds.
    pub fn len(&self) -> (r: usize)
        ensures
            r == self@.len(),
    {
        self.entries.len()
    }

    /// The value bound to `key`: `None` when the key is absent.
    pub fn get(&self, key: &str) -> (r: Option<Option<Parameter>>)
        ensures
            r.deep_view() == pm_get(self@, key@),
    {
        let n: usize = self.entries.len();
        let mut i: usize = 0;
        while i < n
            invariant
                n == self@.len(),
                i <= n,
                forall|j: int| 0 <= j < i ==> (#[trigger] self@[j]).0 != key@,
            decreases n - i,
        {
            if str_equal(self.entries[i].key.as_str(), key) {
                let v = crate::params::duplicate_opt(&self.entries[i].value);
                proof {
                    lemma_pm_get_at(self@, key@, i as int);
                }
                return Some(v);
            }
            i = i + 1;
        }
        proof {
            lemma_pm_get_some_iff(self@, key@);
        }
        None
    }

    /// Binds `key` to `value`, replacing any existing binding.
    pub fn insert(&mut self, key: String, value: Option<Parameter>)
        requires
            old(self).wf(),
        ensures
            final(self).wf(),
            final(self)@ == pm_insert(old(self)@, key@, value.deep_view()),
    {
        let ghost m0 = self@;
        let n: usize = self.entries.len();
        let mut i: usize = 0;
        while i < n && str_less(self.entries[i].key.as_str(), key.as_str())
            invariant
                self@ == m0,
                n == self@.len(),
                i <= n,
                forall|j: int|
                    0 <= j < i ==> bytes_lt(
                        encode_utf8((#[trigger] self@[j]).0),
                        encode_utf8(key@),
                    ),
            decreases n - i,
        {
            i = i + 1;
        }
        let ghost kv = key@;
        let ghost vv = value.deep_view();
        let replace: bool = i < n && str_equal(self.entries[i].key.as_str(), key.as_str());
        let entry = ParamEntry { key, value };
        if replace {
            self.entries[i] = entry;
        } else {
            self.entries.insert(i, entry);
        }
        proof {
            lemma_pm_insert_at(m0, kv, vv, i as int);
            if replace {
                assert(m0[i as int].0 == kv);
                assert(self@ =~= m0.update(i as int, (kv, vv)));
            } else {
                if (i as int) < m0.len() {
                    lemma_utf8_injective(m0[i as int].0, kv);
                    assert(encode_utf8(m0[i as int].0) != encode_utf8(kv));
                }
                assert(self@ =~= m0.insert(i as int, (kv, vv)));
            }
            assert(self@ == pm_insert(m0, kv, vv));
            lemma_pm_insert_sorted(m0, kv, vv);
        }
    }

    /// A copy of the mapping; its model is unchanged.
    pub fn duplicate(&self) -> (r: ParamMap)
        ensures
            r@ == self@,
    {
        let n: usize = self.entries.len();
        let mut out: Vec<ParamEntry> = Vec::new();
        let mut i: usize = 0;
        while i < n
            invariant
                n == self@.len(),
                i <= n,
                out@.len() == i,
                forall|j: int| 0 <= j < i ==> (#[trigger] out@[j]).deep_view() == self@[j],
            decreases n - i,
        {
            let e = ParamEntry {
                key: self.entries[i].key.clone(),
                value: crate::params::duplicate_opt(&self.entries[i].value),
            };
            proof {
                assert(e.deep_view() == self@[i as int]);
            }
            out.push(e);
            i = i + 1;
        }
        let r = ParamMap { entries: out };
        proof {
            assert(r@ =~= self@);
        }
        r
    }
}

/// Where the ordered position of `k` is `i`, `pm_insert` replaces there or
/// inserts there.
proof fn lemma_pm_insert_at(
    m: Seq<(Seq<char>, Option<ParamModel>)>,
    k: Seq<char>,
    v: Option<ParamModel>,
    i: int,
)
    requires
        pm_sorted(m),
        0 <= i <= m.len(),
        forall|j: int| 0 <= j < i ==> bytes_lt(encode_utf8((#[trigger] m[j]).0), encode_utf8(k)),
    ensures
        i < m.len() && encode_utf8(m[i].0) == encode_utf8(k) ==> pm_insert(m, k, v) == m.update(
            i,
            (k, v),
        ),
        !(i < m.len() && encode_utf8(m[i].0) == encode_utf8(k)) && (i == m.len() || !bytes_lt(
            encode_utf8(m[i].0),
            encode_utf8(k),
        )) ==> pm_insert(m, k, v) == m.insert(i, (k, v)),
    decreases i,
{
    let kb = encode_utf8(k);
    if i == 0 {
        if m.len() > 0 && encode_utf8(m[0].0) == kb {
            lemma_bytes_lt_irrefl(kb);
            assert(pm_insert(m, k, v) == seq![(k, v)] + m.drop_first());
            assert(seq![(k, v)] + m.drop_first() =~= m.update(0, (k, v)));
        } else if m.len() == 0 {
            assert(pm_insert(m, k, v) =~= m.insert(0, (k, v)));
        } else if !bytes_lt(encode_utf8(m[0].0), kb) {
            lemma_bytes_lt_connex(kb, encode_utf8(m[0].0));
            assert(bytes_lt(kb, encode_utf8(m[0].0)));
            assert(pm_insert(m, k, v) == seq![(k, v)] + m);
            assert(seq![(k, v)] + m =~= m.insert(0, (k, v)));
        }
    } else {
        assert(bytes_lt(encode_utf8(m[0].0), kb));
        lemma_bytes_lt_irrefl(kb);
        assert(!bytes_lt(kb, encode_utf8(m[0].0))) by {
            lemma_bytes_lt_trans(kb, encode_utf8(m[0].0), kb);
        }
        assert(encode_utf8(m[0].0) != kb);
        lemma_pm_insert_at(m.drop_first(), k, v, i - 1);
        assert(pm_insert(m, k, v) == seq![m[0]] + pm_insert(m.drop_first(), k, v));
        if i < m.len() && encode_utf8(m[i].0) == kb {
            assert(m.drop_first()[i - 1] == m[i]);
            assert(seq![m[0]] + m.drop_first().update(i - 1, (k, v)) =~= m.update(i, (k, v)));
        } else if i == m.len() || !bytes_lt(encode_utf8(m[i].0), kb) {
            assert(seq![m[0]] + m.drop_first().insert(i - 1, (k, v)) =~= m.insert(i, (k, v)));
        }
    }
}

} // verus!
