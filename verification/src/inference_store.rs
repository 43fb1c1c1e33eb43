//! The flat store layout: entries are keyed in memory by their 32-byte
//! composite hash, in insertion order with unique keys, and filed on disk
//! under the `_`-separated hex name that the hash spells.

use vstd::prelude::*;
use vstd::utf8::encode_utf8;
use crate::fingerprint::ProcessedInput;
use crate::fingerprint::ProcessedInputModel;
use crate::fingerprint::MatchConfig;
use crate::fingerprint::spec_matches;
use crate::response::ProcessedOutput;
use crate::response::ProcessedOutputModel;
use crate::response::response_hash_preimage;
use crate::hashing::blake2b64_of;
use crate::cachable_modelinfer::spec_composite_hash;
use crate::codec::spec_flat_file_name;
use crate::codec::spec_flat_name_hash;
use crate::codec::flat_file_name_from_hash;
use crate::codec::flat_hash_from_name;

verus! {

/// The composite 32-byte hash of a fingerprint/response pair: the three
/// request-side partial hashes, then the response hash.
pub open spec fn spec_pair_hash(f: ProcessedInputModel, o: ProcessedOutputModel) -> Seq<u8> {
    spec_composite_hash(f, blake2b64_of(response_hash_preimage(o)))
}

/// A fingerprint/response pair about to be filed.
#[derive(PartialEq, Debug)]
pub struct InputOutputWrapper {
    pub input: ProcessedInput,
    pub output: ProcessedOutput,
}

/// The shell a stored file's request side is read back through.
#[derive(PartialEq, Debug)]
pub struct InputWrapper {
    pub input: ProcessedInput,
}

/// The shell a stored file's response side is read back through.
#[derive(PartialEq, Debug)]
pub struct OutputWrapper {
    pub output: ProcessedOutput,
}

impl InputOutputWrapper {
    /// Pairs a fingerprint with its response.
    pub fn new(input: ProcessedInput, output: ProcessedOutput) -> (r: InputOutputWrapper)
        ensures
            r.input == input,
            r.output == output,
    {
        InputOutputWrapper { input, output }
    }

    /// The pair's 32-byte composite hash.
    pub fn hash(&self) -> (r: Vec<u8>)
        ensures
            r@ == spec_pair_hash(self.input@, self.output@),
            r@.len() == 32,
    {
        let h1 = self.input.inputs_hash();
        let h2 = self.input.outputs_hash();
        let h3 = self.input.metadata_hash();
        let h4 = self.output.hash();
        let mut hash: Vec<u8> = Vec::new();
        hash.extend_from_slice(h1.as_slice());
        hash.extend_from_slice(h2.as_slice());
        hash.extend_from_slice(h3.as_slice());
        hash.extend_from_slice(h4.as_slice());
        proof {
            assert(hash@ =~= spec_pair_hash(self.input@, self.output@));
        }
        hash
    }

    /// The flat-layout name the pair is filed under.
    pub fn file_name(&self) -> (r: String)
        ensures
            encode_utf8(r@) == spec_flat_file_name(spec_pair_hash(self.input@, self.output@)),
    {
        let hash = self.hash();
        flat_file_name_from_hash(&hash)
    }
}

/// Of a list of file names, those carrying the `.inferstore` extension,
/// in order.
pub open spec fn keep_store_names(s: Seq<Seq<char>>) -> Seq<Seq<char>>
    decreases s.len(),
{
    if s.len() == 0 {
        Seq::empty()
    } else if crate::codec::spec_has_store_extension(encode_utf8(s[0])) {
        seq![s[0]] + keep_store_names(s.drop_first())
    } else {
        keep_store_names(s.drop_first())
    }
}

proof fn lemma_keep_store_names_push(s: Seq<Seq<char>>, x: Seq<char>)
    ensures
        keep_store_names(s.push(x)) == if crate::codec::spec_has_store_extension(
            encode_utf8(x),
        ) {
            keep_store_names(s).push(x)
        } else {
            keep_store_names(s)
        },
    decreases s.len(),
{
    if s.len() == 0 {
        assert(s.push(x).drop_first() =~= s);
        if crate::codec::spec_has_store_extension(encode_utf8(x)) {
            assert(keep_store_names(s.push(x)) =~= keep_store_names(s).push(x));
        }
    } else {
        lemma_keep_store_names_push(s.drop_first(), x);
        assert(s.push(x).drop_first() =~= s.drop_first().push(x));
        assert(s.push(x)[0] == s[0]);
        if crate::codec::spec_has_store_extension(encode_utf8(x)) {
            assert(keep_store_names(s.push(x)) =~= keep_store_names(s).push(x));
        } else {
            assert(keep_store_names(s.push(x)) =~= keep_store_names(s));
        }
    }
}

/// One in-memory record: a composite hash and the fingerprint it keys.
#[derive(PartialEq, Debug)]
pub struct InferenceRecord {
    pub hash: Vec<u8>,
    pub input: ProcessedInput,
}

/// The mathematical model of an [`InferenceRecord`].
pub struct InferenceRecordModel {
    pub hash: Seq<u8>,
    pub input: ProcessedInputModel,
}

impl View for InferenceRecord {
    type V = InferenceRecordModel;

    open spec fn view(&self) -> InferenceRecordModel {
        InferenceRecordModel { hash: self.hash@, input: self.input@ }
    }
}

impl DeepView for InferenceRecord {
    type V = InferenceRecordModel;

    open spec fn deep_view(&self) -> InferenceRecordModel {
        self.view()
    }
}

/// The flat store: a directory path and the hash-keyed records, in
/// insertion order with unique keys.
pub struct InferenceStore {
    pub path: String,
    pub inference_store: Vec<InferenceRecord>,
}

impl InferenceStore {
    /// Well-formed: 32-byte hashes, unique keys, well-formed fingerprints.
    pub open spec fn inv(&self) -> bool {
        &&& forall|i: int|
            0 <= i < self.inference_store@.len() ==> (#[trigger] self.inference_store@[
                i
            ]).hash@.len() == 32
        &&& forall|i: int|
            0 <= i < self.inference_store@.len() ==> crate::fingerprint::spec_input_wf(
                (#[trigger] self.inference_store@[i]).input@,
            )
        &&& forall|i: int, j: int|
            0 <= i < j < self.inference_store@.len() ==> (#[trigger] self.inference_store@[
                i
            ]).hash@ != (#[trigger] self.inference_store@[j]).hash@
    }

    /// An empty store over the given directory.
    pub fn new(path: String) -> (r: InferenceStore)
        ensures
            r.inv(),
            r.inference_store@.len() == 0,
            r.path@ == path@,
    {
        InferenceStore { path, inference_store: Vec::new() }
    }

    /// How many records the store holds.
    pub fn len(&self) -> (r: usize)
        ensures
            r == self.inference_store@.len(),
    {
        self.inference_store.len()
    }

    /// Of the store directory's file names, those that carry the
    /// `.inferstore` extension: the files a recovery pass should read.
    pub fn get_inference_files(&self, file_names: &Vec<String>) -> (r: Vec<String>)
        ensures
            r.deep_view() == keep_store_names(file_names.deep_view()),
    {
        let n: usize = file_names.len();
        let mut out: Vec<String> = Vec::new();
        let mut i: usize = 0;
        proof {
            assert(file_names.deep_view().subrange(0, 0) =~= Seq::<Seq<char>>::empty());
        }
        while i < n
            invariant
                n == file_names@.len(),
                file_names@.len() == file_names.deep_view().len(),
                i <= n,
                out@.len() == keep_store_names(
                    file_names.deep_view().subrange(0, i as int),
                ).len(),
                forall|j: int|
                    0 <= j < out@.len() ==> (#[trigger] out@[j])@ == keep_store_names(
                        file_names.deep_view().subrange(0, i as int),
                    )[j],
            decreases n - i,
        {
            let name = &file_names[i];
            proof {
                let fs = file_names.deep_view();
                assert(fs[i as int] == file_names@[i as int]@);
                assert(fs.subrange(0, i as int + 1) =~= fs.subrange(0, i as int).push(
                    fs[i as int],
                ));
                lemma_keep_store_names_push(fs.subrange(0, i as int), fs[i as int]);
            }
            if crate::codec::is_inference_file_name(name.as_str()) {
                out.push(name.clone());
            }
            i = i + 1;
        }
        proof {
            assert(file_names.deep_view().subrange(0, n as int) =~= file_names.deep_view());
            assert(out.deep_view() =~= keep_store_names(file_names.deep_view()));
        }
        out
    }

    /// Recovers one record from a stored file: the hash is read back from
    /// the file name, and the parsed fingerprint is keyed under it, a
    /// record with the same key being replaced in place. A name that does
    /// not spell a hash is reported and skipped.
    pub fn load(&mut self, input: ProcessedInput, file_name: &str) -> (r: bool)
        requires
            old(self).inv(),
            input.wf(),
        ensures
            final(self).inv(),
            final(self).path == old(self).path,
            r == (spec_flat_name_hash(encode_utf8(file_name@)) is Some),
            !r ==> final(self).inference_store@ == old(self).inference_store@,
            r ==> ({
                let h = spec_flat_name_hash(encode_utf8(file_name@))->0;
                &&& (exists|j: int|
                    0 <= j < old(self).inference_store@.len() && (#[trigger] old(self).inference_store@[j]).hash@ == h) ==> exists|j: int|
                    {
                        &&& 0 <= j < old(self).inference_store@.len()
                        &&& (#[trigger] old(self).inference_store@[j]).hash@ == h
                        &&& final(self).inference_store@.len() == old(self).inference_store@.len()
                        &&& final(self).inference_store@[j].hash@ == h
                        &&& final(self).inference_store@[j].input@ == input@
                        &&& forall|k: int|
                            0 <= k < old(self).inference_store@.len() && k != j ==> final(self).inference_store@[k] == old(self).inference_store@[k]
                    }
                &&& (forall|j: int|
                    0 <= j < old(self).inference_store@.len() ==> (#[trigger] old(self).inference_store@[j]).hash@ != h) ==> {
                    &&& final(self).inference_store@.len() == old(self).inference_store@.len()
                        + 1
                    &&& final(self).inference_store@.subrange(
                        0,
                        old(self).inference_store@.len() as int,
                    ) == old(self).inference_store@
                    &&& final(self).inference_store@.last().hash@ == h
                    &&& final(self).inference_store@.last().input@ == input@
                }
            }),
    {
        let hash = match flat_hash_from_name(file_name) {
            Some(h) => h,
            None => {
                return false;
            },
        };
        let ghost h = hash@;
        let n: usize = self.inference_store.len();
        let mut i: usize = 0;
        while i < n
            invariant
                self.inv(),
                self.inference_store@ == old(self).inference_store@,
                self.path == old(self).path,
                n == self.inference_store@.len(),
                i <= n,
                h == hash@,
                hash@.len() == 32,
                input.wf(),
                spec_flat_name_hash(encode_utf8(file_name@)) is Some,
                h == spec_flat_name_hash(encode_utf8(file_name@))->0,
                forall|j: int|
                    0 <= j < i ==> (#[trigger] self.inference_store@[j]).hash@ != h,
            decreases n - i,
        {
            if crate::pmap::bytes_equal(self.inference_store[i].hash.as_slice(), hash.as_slice()) {
                let record = InferenceRecord { hash, input };
                self.inference_store[i] = record;
                proof {
                    assert(self.inference_store@[i as int].hash@ == h);
                    assert forall|k: int|
                        0 <= k < old(self).inference_store@.len() && k != i as int implies self.inference_store@[k]
                        == old(self).inference_store@[k] by {}
                }
                return true;
            }
            i = i + 1;
        }
        let record = InferenceRecord { hash, input };
        self.inference_store.push(record);
        proof {
            assert(self.inference_store@.subrange(0, old(self).inference_store@.len() as int)
                =~= old(self).inference_store@);
        }
        true
    }

    /// Files a new pair: the record is keyed under the pair's composite
    /// hash and the flat-layout name is handed back. A pair whose hash is
    /// already keyed leaves the store unchanged and reports `false`.
    pub fn write(&mut self, input: ProcessedInput, output: ProcessedOutput) -> (r: (String, bool))
        requires
            old(self).inv(),
            input.wf(),
        ensures
            final(self).inv(),
            final(self).path == old(self).path,
            encode_utf8(r.0@) == spec_flat_file_name(spec_pair_hash(input@, output@)),
            (exists|j: int|
                0 <= j < old(self).inference_store@.len() && (#[trigger] old(self).inference_store@[j]).hash@ == spec_pair_hash(input@, output@)) ==> (r.1 == false
                && final(self).inference_store@ == old(self).inference_store@),
            (forall|j: int|
                0 <= j < old(self).inference_store@.len() ==> (#[trigger] old(self).inference_store@[j]).hash@ != spec_pair_hash(input@, output@)) ==> (r.1 == true
                && {
                &&& final(self).inference_store@.len() == old(self).inference_store@.len() + 1
                &&& final(self).inference_store@.subrange(
                    0,
                    old(self).inference_store@.len() as int,
                ) == old(self).inference_store@
                &&& final(self).inference_store@.last().hash@ == spec_pair_hash(input@, output@)
                &&& final(self).inference_store@.last().input@ == input@
            }),
    {
        let wrapper = InputOutputWrapper::new(input, output);
        let hash = wrapper.hash();
        let name = flat_file_name_from_hash(&hash);
        let ghost h = hash@;
        let stored_input = wrapper.input;
        let n: usize = self.inference_store.len();
        let mut i: usize = 0;
        while i < n
            invariant
                self.inv(),
                self.inference_store@ == old(self).inference_store@,
                self.path == old(self).path,
                n == self.inference_store@.len(),
                i <= n,
                h == hash@,
                h == spec_pair_hash(input@, output@),
                encode_utf8(name@) == spec_flat_file_name(h),
                forall|j: int|
                    0 <= j < i ==> (#[trigger] self.inference_store@[j]).hash@ != h,
            decreases n - i,
        {
            if crate::pmap::bytes_equal(self.inference_store[i].hash.as_slice(), hash.as_slice()) {
                return (name, false);
            }
            i = i + 1;
        }
        let record = InferenceRecord { hash, input: stored_input };
        self.inference_store.push(record);
        proof {
            assert(self.inference_store@.subrange(0, old(self).inference_store@.len() as int)
                =~= old(self).inference_store@);
        }
        (name, true)
    }

    /// The flat-layout file name of the first record, in insertion order,
    /// whose stored fingerprint the given input matches; `None` when no
    /// record matches. The named file holds the response to replay.
    pub fn find_output(&self, match_input: &ProcessedInput, config: &MatchConfig) -> (r: Option<
        String,
    >)
        requires
            self.inv(),
            match_input.wf(),
        ensures
            match r {
                Option::Some(name) => exists|k: int|
                    {
                        &&& 0 <= k < self.inference_store@.len()
                        &&& spec_matches(
                            match_input@,
                            (#[trigger] self.inference_store@[k]).input@,
                            config@,
                        )
                        &&& forall|j: int|
                            0 <= j < k ==> !spec_matches(
                                match_input@,
                                (#[trigger] self.inference_store@[j]).input@,
                                config@,
                            )
                        &&& encode_utf8(name@) == spec_flat_file_name(
                            self.inference_store@[k].hash@,
                        )
                    },
                Option::None => forall|k: int|
                    0 <= k < self.inference_store@.len() ==> !spec_matches(
                        match_input@,
                        (#[trigger] self.inference_store@[k]).input@,
                        config@,
                    ),
            },
    {
        let n: usize = self.inference_store.len();
        let mut i: usize = 0;
        while i < n
            invariant
                self.inv(),
                match_input.wf(),
                n == self.inference_store@.len(),
                i <= n,
                forall|j: int|
                    0 <= j < i ==> !spec_matches(
                        match_input@,
                        (#[trigger] self.inference_store@[j]).input@,
                        config@,
                    ),
            decreases n - i,
        {
            if match_input.matches(&self.inference_store[i].input, config) {
                let name = flat_file_name_from_hash(&self.inference_store[i].hash);
                return Some(name);
            }
            i = i + 1;
        }
        None
    }
}

} // verus!
