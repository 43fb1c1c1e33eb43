//! The interface an entry kind offers the content-addressed store: how an
//! entry is built from an input/output pair, what file name it is filed
//! under, and when it answers an incoming input.

use vstd::prelude::*;
use vstd::utf8::encode_utf8;

verus! {

/// One kind of cacheable entry. An entry owns an input and an output, is
/// filed under a name derived from them, and answers inputs that match its
/// own under the kind's policy.
pub trait Cachable: Sized {
    type Input;

    type Output;

    type Config;

    /// The entry's internal invariant.
    spec fn inv(&self) -> bool;

    /// What a well-formed input is for this kind.
    spec fn input_inv(input: &Self::Input) -> bool;

    /// What a well-formed output is for this kind.
    spec fn output_inv(output: &Self::Output) -> bool;

    /// The input the entry holds.
    spec fn spec_input(&self) -> Self::Input;

    /// The output the entry holds.
    spec fn spec_output(&self) -> Self::Output;

    /// Equality of two outputs at the model level.
    spec fn out_eq(a: &Self::Output, b: &Self::Output) -> bool;

    /// Whether the entry answers `input` under `config`.
    spec fn spec_matches(&self, input: &Self::Input, config: &Self::Config) -> bool;

    /// The UTF-8 bytes of the name the entry is filed under.
    spec fn spec_file_name(&self) -> Seq<u8>;

    /// The name an entry made of the given pair is filed under.
    spec fn spec_name_of(input: &Self::Input, output: &Self::Output) -> Seq<u8>;

    /// Whether name bytes have the shape of this kind's file names.
    spec fn spec_matches_file_name(bs: Seq<u8>) -> bool;

    /// Builds the entry that files the given pair.
    fn create(input: Self::Input, output: Self::Output) -> (r: Self)
        requires
            Self::input_inv(&input),
            Self::output_inv(&output),
        ensures
            r.inv(),
            r.spec_input() == input,
            r.spec_output() == output,
            r.spec_file_name() == Self::spec_name_of(&input, &output),
    ;

    /// The input the entry holds.
    fn get_input(&self) -> (r: &Self::Input)
        requires
            self.inv(),
        ensures
            *r == self.spec_input(),
    ;

    /// The output the entry holds.
    fn get_output(&self) -> (r: Self::Output)
        requires
            self.inv(),
        ensures
            Self::out_eq(&r, &self.spec_output()),
            Self::output_inv(&r),
    ;

    /// Whether the entry answers `input` under `config`.
    fn matches(&self, input: &Self::Input, config: &Self::Config) -> (r: bool)
        requires
            self.inv(),
            Self::input_inv(input),
        ensures
            r == self.spec_matches(input, config),
    ;

    /// The name the entry is filed under.
    fn file_name(&self) -> (r: String)
        requires
            self.inv(),
        ensures
            encode_utf8(r@) == self.spec_file_name(),
    ;

    /// Whether a file name has the shape of this kind's names.
    fn matches_file_name(file_name: &str) -> (r: bool)
        ensures
            r == Self::spec_matches_file_name(encode_utf8(file_name@)),
    ;
}

} // verus!
