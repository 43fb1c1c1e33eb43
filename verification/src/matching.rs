//! Comparison of parameter mappings under a key policy: compare only the
//! named keys, or compare everything except the named keys.

use vstd::prelude::*;
use crate::params::Parameter;
use crate::params::ParamModel;
use crate::pmap::ParamMap;
use crate::pmap::pm_get;
use crate::pmap::pm_sorted;
use crate::pmap::lemma_pm_get_at;
use crate::pmap::lemma_pm_get_some_iff;
use crate::pmap::lemma_bytes_lt_irrefl;
use crate::pmap::str_equal;

verus! {

/// The policy-controlled equality of two parameter mappings. With
/// `exclude` the mappings must agree on every key outside `keys`; without
/// it they must agree on the keys in `keys`, missing on both sides counting
/// as agreement.
pub open spec fn spec_keyed_map_equal(
    m1: Seq<(Seq<char>, Option<ParamModel>)>,
    m2: Seq<(Seq<char>, Option<ParamModel>)>,
    keys: Seq<Seq<char>>,
    exclude: bool,
) -> bool {
    if exclude {
        forall|k: Seq<char>| !keys.contains(k) ==> pm_get(m1, k) == pm_get(m2, k)
    } else {
        forall|i: int| 0 <= i < keys.len() ==> pm_get(m1, #[trigger] keys[i]) == pm_get(m2, keys[i])
    }
}

/// A key outside the list on which the mappings disagree refutes the
/// exclude-mode comparison.
pub proof fn lemma_kme_counterexample_exclude(
    m1: Seq<(Seq<char>, Option<ParamModel>)>,
    m2: Seq<(Seq<char>, Option<ParamModel>)>,
    keys: Seq<Seq<char>>,
    k: Seq<char>,
)
    requires
        !keys.contains(k),
        pm_get(m1, k) != pm_get(m2, k),
    ensures
        !spec_keyed_map_equal(m1, m2, keys, true),
{
}

/// A listed key on which the mappings disagree refutes the include-mode
/// comparison.
pub proof fn lemma_kme_counterexample_include(
    m1: Seq<(Seq<char>, Option<ParamModel>)>,
    m2: Seq<(Seq<char>, Option<ParamModel>)>,
    keys: Seq<Seq<char>>,
    i: int,
)
    requires
        0 <= i < keys.len(),
        pm_get(m1, keys[i]) != pm_get(m2, keys[i]),
    ensures
        !spec_keyed_map_equal(m1, m2, keys, false),
{
}

/// In a sorted mapping the entry at `i` is what `pm_get` returns for its key.
pub proof fn lemma_pm_get_unique(m: Seq<(Seq<char>, Option<ParamModel>)>, i: int)
    requires
        pm_sorted(m),
        0 <= i < m.len(),
    ensures
        pm_get(m, m[i].0) == Option::Some(m[i].1),
{
    assert forall|j: int| 0 <= j < i implies (#[trigger] m[j]).0 != m[i].0 by {
        if m[j].0 == m[i].0 {
            lemma_bytes_lt_irrefl(vstd::utf8::encode_utf8(m[i].0));
        }
    }
    lemma_pm_get_at(m, m[i].0, i);
}

/// Whether the key list holds `k`.
pub fn key_list_contains(keys: &Vec<String>, k: &str) -> (r: bool)
    ensures
        r == keys.deep_view().contains(k@),
{
    let n: usize = keys.len();
    let mut i: usize = 0;
    while i < n
        invariant
            n == keys@.len(),
            i <= n,
            forall|j: int| 0 <= j < i ==> keys.deep_view()[j] != k@,
        decreases n - i,
    {
        if str_equal(keys[i].as_str(), k) {
            proof {
                assert(keys.deep_view()[i as int] == k@);
            }
            return true;
        }
        proof {
            assert(keys.deep_view()[i as int] == keys@[i as int]@);
        }
        i = i + 1;
    }
    proof {
        if keys.deep_view().contains(k@) {
            let j = choose|j: int| 0 <= j < keys.deep_view().len() && keys.deep_view()[j] == k@;
            assert(keys.deep_view()[j] != k@);
        }
    }
    false
}

/// Equality of two lookup results, each an optional optional value.
fn lookup_eq(a: &Option<Option<Parameter>>, b: &Option<Option<Parameter>>) -> (r: bool)
    ensures
        r == (a.deep_view() == b.deep_view()),
{
    match (a, b) {
        (Option::None, Option::None) => true,
        (Option::Some(x), Option::Some(y)) => crate::params::same_opt_value(x, y),
        _ => false,
    }
}

/// Compare two ordered parameter mappings on the given keys. With
/// `exclude_keys` every key except those in `keys_to_compare` must agree;
/// without it exactly the keys in `keys_to_compare` must agree, a key
/// missing on both sides counting as agreement.
pub fn btreemap_compare(
    map1: &ParamMap,
    map2: &ParamMap,
    keys_to_compare: &Vec<String>,
    exclude_keys: bool,
) -> (r: bool)
    requires
        map1.wf(),
        map2.wf(),
    ensures
        r == spec_keyed_map_equal(map1@, map2@, keys_to_compare.deep_view(), exclude_keys),
{
    let ghost ks = keys_to_compare.deep_view();
    if exclude_keys {
        let n1: usize = map1.entries.len();
        let mut i: usize = 0;
        while i < n1
            invariant
                exclude_keys,
                map1.wf(),
                map2.wf(),
                n1 == map1@.len(),
                i <= n1,
                ks == keys_to_compare.deep_view(),
                forall|j: int|
                    0 <= j < i && !ks.contains((#[trigger] map1@[j]).0) ==> pm_get(
                        map2@,
                        map1@[j].0,
                    ) == Option::Some(map1@[j].1),
            decreases n1 - i,
        {
            let key = &map1.entries[i].key;
            if !key_list_contains(keys_to_compare, key.as_str()) {
                let found = map2.get(key.as_str());
                let mine = Some(crate::params::duplicate_opt(&map1.entries[i].value));
                if !lookup_eq(&found, &mine) {
                    proof {
                        lemma_pm_get_unique(map1@, i as int);
                        assert(pm_get(map1@, map1@[i as int].0) != pm_get(map2@, map1@[i as int].0));
                        assert(!ks.contains(map1@[i as int].0));
                        lemma_kme_counterexample_exclude(map1@, map2@, ks, map1@[i as int].0);
                    }
                    return false;
                }
            }
            i = i + 1;
        }
        let n2: usize = map2.entries.len();
        let mut i2: usize = 0;
        while i2 < n2
            invariant
                exclude_keys,
                map1.wf(),
                map2.wf(),
                n2 == map2@.len(),
                i2 <= n2,
                ks == keys_to_compare.deep_view(),
                forall|j: int|
                    0 <= j < map1@.len() && !ks.contains((#[trigger] map1@[j]).0) ==> pm_get(
                        map2@,
                        map1@[j].0,
                    ) == Option::Some(map1@[j].1),
                forall|j: int|
                    0 <= j < i2 && !ks.contains((#[trigger] map2@[j]).0) ==> pm_get(
                        map1@,
                        map2@[j].0,
                    ) is Some,
            decreases n2 - i2,
        {
            let key = &map2.entries[i2].key;
            if !key_list_contains(keys_to_compare, key.as_str()) {
                let found = map1.get(key.as_str());
                if found.is_none() {
                    proof {
                        lemma_pm_get_unique(map2@, i2 as int);
                        assert(pm_get(map1@, map2@[i2 as int].0) is None);
                        assert(!ks.contains(map2@[i2 as int].0));
                        assert(pm_get(map1@, map2@[i2 as int].0) != pm_get(
                            map2@,
                            map2@[i2 as int].0,
                        ));
                        lemma_kme_counterexample_exclude(map1@, map2@, ks, map2@[i2 as int].0);
                    }
                    return false;
                }
            }
            i2 = i2 + 1;
        }
        proof {
            assert forall|k: Seq<char>| !ks.contains(k) implies pm_get(map1@, k) == pm_get(
                map2@,
                k,
            ) by {
                lemma_pm_get_some_iff(map1@, k);
                lemma_pm_get_some_iff(map2@, k);
                if pm_get(map1@, k) is Some {
                    let j = choose|j: int| 0 <= j < map1@.len() && (#[trigger] map1@[j]).0 == k;
                    lemma_pm_get_unique(map1@, j);
                } else {
                    if pm_get(map2@, k) is Some {
                        let j = choose|j: int| 0 <= j < map2@.len() && (#[trigger] map2@[j]).0 == k;
                        lemma_pm_get_unique(map2@, j);
                    }
                }
            }
        }
        true
    } else {
        let n: usize = keys_to_compare.len();
        let mut i: usize = 0;
        while i < n
            invariant
                !exclude_keys,
                map1.wf(),
                map2.wf(),
                n == ks.len(),
                i <= n,
                ks == keys_to_compare.deep_view(),
                forall|j: int| 0 <= j < i ==> pm_get(map1@, #[trigger] ks[j]) == pm_get(map2@, ks[j]),
            decreases n - i,
        {
            let k = keys_to_compare[i].as_str();
            let a = map1.get(k);
            let b = map2.get(k);
            if !lookup_eq(&a, &b) {
                proof {
                    assert(ks[i as int] == k@);
                    assert(pm_get(map1@, ks[i as int]) != pm_get(map2@, ks[i as int]));
                    lemma_kme_counterexample_include(map1@, map2@, ks, i as int);
                }
                return false;
            }
            proof {
                assert(ks[i as int] == k@);
            }
            i = i + 1;
        }
        true
    }
}

/// One name with its list of parameter keys.
pub struct KeyListEntry {
    pub name: String,
    pub keys: Vec<String>,
}

impl View for KeyListEntry {
    type V = (Seq<char>, Seq<Seq<char>>);

    open spec fn view(&self) -> (Seq<char>, Seq<Seq<char>>) {
        (self.name@, self.keys.deep_view())
    }
}

impl DeepView for KeyListEntry {
    type V = (Seq<char>, Seq<Seq<char>>);

    open spec fn deep_view(&self) -> (Seq<char>, Seq<Seq<char>>) {
        self.view()
    }
}

/// A mapping from tensor names to parameter key lists; a name that is not
/// listed maps to the empty list.
pub struct KeyListMap {
    pub entries: Vec<KeyListEntry>,
}

impl View for KeyListMap {
    type V = Seq<(Seq<char>, Seq<Seq<char>>)>;

    open spec fn view(&self) -> Seq<(Seq<char>, Seq<Seq<char>>)> {
        self.entries.deep_view()
    }
}

impl DeepView for KeyListMap {
    type V = Seq<(Seq<char>, Seq<Seq<char>>)>;

    open spec fn deep_view(&self) -> Seq<(Seq<char>, Seq<Seq<char>>)> {
        self.view()
    }
}

/// The key list for `name`: the first listed entry, or empty when absent.
pub open spec fn klm_get(m: Seq<(Seq<char>, Seq<Seq<char>>)>, name: Seq<char>) -> Seq<Seq<char>>
    decreases m.len(),
{
    if m.len() == 0 {
        Seq::empty()
    } else if m[0].0 == name {
        m[0].1
    } else {
        klm_get(m.drop_first(), name)
    }
}

impl KeyListMap {
    /// The empty mapping.
    pub fn new() -> (r: KeyListMap)
        ensures
            r@ == Seq::<(Seq<char>, Seq<Seq<char>>)>::empty(),
    {
        let r = KeyListMap { entries: Vec::new() };
        proof {
            assert(r@ =~= Seq::<(Seq<char>, Seq<Seq<char>>)>::empty());
        }
        r
    }

    /// Appends a name with its key list.
    pub fn push(&mut self, name: String, keys: Vec<String>)
        ensures
            final(self)@ == old(self)@.push((name@, keys.deep_view())),
    {
        let ghost nv = name@;
        let ghost kv = keys.deep_view();
        self.entries.push(KeyListEntry { name, keys });
        proof {
            assert(self@ =~= old(self)@.push((nv, kv)));
        }
    }

    /// The key list stored for `name`, when one is listed.
    fn get_list(&self, name: &str) -> (r: Option<&Vec<String>>)
        ensures
            match r {
                Option::Some(v) => v.deep_view() == klm_get(self@, name@) && (exists|i: int|
                    0 <= i < self@.len() && (#[trigger] self@[i]).0 == name@),
                Option::None => klm_get(self@, name@) == Seq::<Seq<char>>::empty() && (forall|
                    i: int,
                |
                    0 <= i < self@.len() ==> (#[trigger] self@[i]).0 != name@),
            },
    {
        let n: usize = self.entries.len();
        let mut i: usize = 0;
        proof {
            assert(self@.skip(0) =~= self@);
        }
        while i < n
            invariant
                n == self@.len(),
                i <= n,
                forall|j: int| 0 <= j < i ==> (#[trigger] self@[j]).0 != name@,
                klm_get(self@, name@) == klm_get(self@.skip(i as int), name@),
            decreases n - i,
        {
            if str_equal(self.entries[i].name.as_str(), name) {
                proof {
                    assert(self@.skip(i as int)[0] == self@[i as int]);
                    assert(klm_get(self@, name@) == self@[i as int].1);
                }
                return Some(&self.entries[i].keys);
            }
            proof {
                assert(self@.skip(i as int)[0] == self@[i as int]);
                assert(self@.skip(i as int).drop_first() =~= self@.skip(i as int + 1));
            }
            i = i + 1;
        }
        proof {
            assert(self@.skip(n as int) =~= Seq::<(Seq<char>, Seq<Seq<char>>)>::empty());
        }
        None
    }

    /// Compare two parameter mappings under the key list this mapping holds
    /// for `name`.
    pub fn compare_for(&self, name: &str, m1: &ParamMap, m2: &ParamMap, exclude: bool) -> (r: bool)
        requires
            m1.wf(),
            m2.wf(),
        ensures
            r == spec_keyed_map_equal(m1@, m2@, klm_get(self@, name@), exclude),
    {
        let empty: Vec<String> = Vec::new();
        let keys: &Vec<String> = match self.get_list(name) {
            Some(v) => v,
            None => &empty,
        };
        proof {
            assert(keys.deep_view() =~= klm_get(self@, name@));
        }
        btreemap_compare(m1, m2, keys, exclude)
    }
}

} // verus!
