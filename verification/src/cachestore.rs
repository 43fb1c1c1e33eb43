//! The content-addressed store over one entry kind: a directory path and
//! the in-memory sequence of entries, in insertion order.
//!
//! The sequence mirrors the store directory: recovery appends the entries
//! parsed from disk, and an insert whose file name is already present is a
//! silent no-op, so that at most one entry exists per name. Lookups scan
//! the sequence in insertion order and answer from the first match.

use vstd::prelude::*;
use vstd::utf8::encode_utf8;
use crate::cachable::Cachable;
use crate::pmap::str_equal;
use crate::pmap::lemma_utf8_injective;

verus! {

/// The in-memory side of a content-addressed store of `T` entries.
pub struct CacheStore<T: Cachable> {
    /// The directory the entries are filed in.
    pub dir: String,
    /// The entries, in insertion order.
    pub entries: Vec<T>,
}

impl<T: Cachable> CacheStore<T> {
    /// Every held entry satisfies its invariant.
    pub open spec fn inv(&self) -> bool {
        forall|i: int| 0 <= i < self.entries@.len() ==> (#[trigger] self.entries@[i]).inv()
    }

    /// Whether some held entry is filed under the given name bytes.
    pub open spec fn spec_has_name(&self, name: Seq<u8>) -> bool {
        exists|i: int|
            0 <= i < self.entries@.len() && (#[trigger] self.entries@[i]).spec_file_name() == name
    }

    /// An empty store over the given directory.
    pub fn new(dir: String) -> (r: CacheStore<T>)
        ensures
            r.inv(),
            r.entries@.len() == 0,
            r.dir@ == dir@,
    {
        CacheStore { dir, entries: Vec::new() }
    }

    /// How many entries the store holds.
    pub fn len(&self) -> (r: usize)
        ensures
            r == self.entries@.len(),
    {
        self.entries.len()
    }

    /// Appends one entry recovered from the store directory.
    pub fn load(&mut self, entry: T)
        requires
            old(self).inv(),
            entry.inv(),
        ensures
            final(self).inv(),
            final(self).entries@ == old(self).entries@.push(entry),
            final(self).dir == old(self).dir,
    {
        self.entries.push(entry);
    }

    /// Files a new entry for the pair, returning the file name it belongs
    /// under and whether it was fresh. A pair whose file name is already
    /// present leaves the store unchanged and reports `false`: at most one
    /// entry ever exists per name, and a duplicate is never an error.
    pub fn store(&mut self, input: T::Input, output: T::Output) -> (r: (String, bool))
        requires
            old(self).inv(),
            T::input_inv(&input),
            T::output_inv(&output),
        ensures
            final(self).inv(),
            final(self).dir == old(self).dir,
            encode_utf8(r.0@) == T::spec_name_of(&input, &output),
            old(self).spec_has_name(T::spec_name_of(&input, &output)) ==> (r.1 == false
                && final(self).entries@ == old(self).entries@),
            !old(self).spec_has_name(T::spec_name_of(&input, &output)) ==> (r.1 == true && {
                &&& final(self).entries@.len() == old(self).entries@.len() + 1
                &&& final(self).entries@.subrange(0, old(self).entries@.len() as int)
                    == old(self).entries@
                &&& final(self).entries@.last().inv()
                &&& final(self).entries@.last().spec_input() == input
                &&& final(self).entries@.last().spec_output() == output
                &&& final(self).entries@.last().spec_file_name() == T::spec_name_of(
                    &input,
                    &output,
                )
            }),
    {
        let entry = T::create(input, output);
        let name = entry.file_name();
        let n: usize = self.entries.len();
        let mut i: usize = 0;
        while i < n
            invariant
                self.inv(),
                self.entries@ == old(self).entries@,
                self.dir == old(self).dir,
                n == self.entries@.len(),
                i <= n,
                entry.inv(),
                entry.spec_input() == input,
                entry.spec_output() == output,
                entry.spec_file_name() == T::spec_name_of(&input, &output),
                encode_utf8(name@) == entry.spec_file_name(),
                forall|j: int|
                    0 <= j < i ==> (#[trigger] self.entries@[j]).spec_file_name()
                        != entry.spec_file_name(),
            decreases n - i,
        {
            let existing = self.entries[i].file_name();
            if str_equal(existing.as_str(), name.as_str()) {
                proof {
                    assert(self.entries@[i as int].spec_file_name() == entry.spec_file_name());
                }
                return (name, false);
            }
            proof {
                lemma_utf8_injective(existing@, name@);
            }
            i = i + 1;
        }
        proof {
            if self.spec_has_name(entry.spec_file_name()) {
                let j = choose|j: int|
                    0 <= j < self.entries@.len() && (#[trigger] self.entries@[j]).spec_file_name()
                        == entry.spec_file_name();
                assert(self.entries@[j].spec_file_name() != entry.spec_file_name());
            }
        }
        self.entries.push(entry);
        (name, true)
    }

    /// The output of the first entry, in insertion order, that answers
    /// `input` under `config`; `None` when no entry does.
    pub fn find_output(&self, input: &T::Input, config: &T::Config) -> (r: Option<T::Output>)
        requires
            self.inv(),
            T::input_inv(input),
        ensures
            match r {
                Option::Some(o) => exists|k: int|
                    {
                        &&& 0 <= k < self.entries@.len()
                        &&& (#[trigger] self.entries@[k]).spec_matches(input, config)
                        &&& forall|j: int|
                            0 <= j < k ==> !(#[trigger] self.entries@[j]).spec_matches(
                                input,
                                config,
                            )
                        &&& T::out_eq(&o, &self.entries@[k].spec_output())
                        &&& T::output_inv(&o)
                    },
                Option::None => forall|k: int|
                    0 <= k < self.entries@.len() ==> !(#[trigger] self.entries@[k]).spec_matches(
                        input,
                        config,
                    ),
            },
    {
        let n: usize = self.entries.len();
        let mut i: usize = 0;
        while i < n
            invariant
                self.inv(),
                T::input_inv(input),
                n == self.entries@.len(),
                i <= n,
                forall|j: int|
                    0 <= j < i ==> !(#[trigger] self.entries@[j]).spec_matches(input, config),
            decreases n - i,
        {
            if self.entries[i].matches(input, config) {
                let o = self.entries[i].get_output();
                return Some(o);
            }
            i = i + 1;
        }
        None
    }
}

} // verus!
