//! The tagged scalar values that inference requests and responses carry as
//! named parameters, and their canonical byte encoding.
//!
//! Compatibility note: scalar values are encoded little-endian everywhere.
//! A `Double` is carried as the 64 raw bits of its IEEE 754 representation,
//! so the encoding and the hashes derived from it never depend on
//! floating-point arithmetic.

use vstd::prelude::*;
use vstd::bytes::spec_u64_to_le_bytes;
use vstd::bytes::u64_to_le_bytes;

verus! {

/// One scalar parameter value from the wire protocol's five-way choice.
#[derive(Clone, PartialEq, Debug)]
pub enum Parameter {
    BoolParam(bool),
    Int64Param(i64),
    StringParam(String),
    /// The raw IEEE 754 bits of a double-precision value.
    DoubleParam(u64),
    Uint64Param(u64),
}

/// The mathematical model of a [`Parameter`]: strings become character
/// sequences, everything else is carried as is.
pub enum ParamModel {
    BoolParam(bool),
    Int64Param(i64),
    StringParam(Seq<char>),
    DoubleParam(u64),
    Uint64Param(u64),
}

impl View for Parameter {
    type V = ParamModel;

    open spec fn view(&self) -> ParamModel {
        match self {
            Parameter::BoolParam(v) => ParamModel::BoolParam(*v),
            Parameter::Int64Param(v) => ParamModel::Int64Param(*v),
            Parameter::StringParam(v) => ParamModel::StringParam(v@),
            Parameter::DoubleParam(v) => ParamModel::DoubleParam(*v),
            Parameter::Uint64Param(v) => ParamModel::Uint64Param(*v),
        }
    }
}

impl DeepView for Parameter {
    type V = ParamModel;

    open spec fn deep_view(&self) -> ParamModel {
        self.view()
    }
}

/// The canonical encoding of a parameter value: a one-byte discriminant
/// followed by the value bytes, scalars little-endian, strings as UTF-8.
pub open spec fn spec_value_bytes(p: ParamModel) -> Seq<u8> {
    match p {
        ParamModel::BoolParam(v) => seq![1u8, if v { 1u8 } else { 0u8 }],
        ParamModel::Int64Param(v) => seq![2u8] + spec_u64_to_le_bytes(v as u64),
        ParamModel::StringParam(v) => seq![3u8] + vstd::utf8::encode_utf8(v),
        ParamModel::DoubleParam(v) => seq![4u8] + spec_u64_to_le_bytes(v),
        ParamModel::Uint64Param(v) => seq![5u8] + spec_u64_to_le_bytes(v),
    }
}

/// The wire message for an optional parameter: the choice may be absent.
#[derive(Clone, PartialEq, Debug)]
pub struct InferParameter {
    pub parameter_choice: Option<Parameter>,
}

impl View for InferParameter {
    type V = Option<ParamModel>;

    open spec fn view(&self) -> Option<ParamModel> {
        match self.parameter_choice {
            Option::None => Option::None,
            Option::Some(p) => Option::Some(p@),
        }
    }
}

impl DeepView for InferParameter {
    type V = Option<ParamModel>;

    open spec fn deep_view(&self) -> Option<ParamModel> {
        self.view()
    }
}

/// A copy of a wire parameter; its model is unchanged.
pub fn duplicate_infer(p: &InferParameter) -> (r: InferParameter)
    ensures
        r@ == p@,
{
    InferParameter { parameter_choice: duplicate_opt(&p.parameter_choice) }
}

impl Parameter {
    /// Parse a wire parameter into its scalar value, `None` when the wire
    /// message carried no choice.
    pub fn from_infer_parameter(parameter: InferParameter) -> (r: Option<Parameter>)
        ensures
            r is Some <==> parameter@ is Some,
            r is Some ==> r->0@ == parameter@->0,
    {
        parameter.parameter_choice
    }

    /// Wrap the scalar value back into a wire parameter.
    pub fn to_infer_parameter(self) -> (r: InferParameter)
        ensures
            r@ == Option::Some(self@),
    {
        InferParameter { parameter_choice: Option::Some(self) }
    }

    /// The canonical byte encoding of this value, per [`spec_value_bytes`].
    pub fn as_bytes(&self) -> (r: Vec<u8>)
        ensures
            r@ == spec_value_bytes(self@),
    {
        match self {
            Parameter::BoolParam(v) => {
                let b: u8 = if *v { 1 } else { 0 };
                let mut res: Vec<u8> = Vec::new();
                res.push(1u8);
                res.push(b);
                assert(res@ =~= spec_value_bytes(self@));
                res
            },
            Parameter::Int64Param(v) => {
                let mut res: Vec<u8> = Vec::new();
                res.push(2u8);
                let mut tail: Vec<u8> = u64_to_le_bytes(*v as u64);
                res.append(&mut tail);
                assert(res@ =~= spec_value_bytes(self@));
                res
            },
            Parameter::StringParam(v) => {
                let mut res: Vec<u8> = Vec::new();
                res.push(3u8);
                let bytes: &[u8] = v.as_str().as_bytes();
                let mut tail: Vec<u8> = vstd::slice::slice_to_vec(bytes);
                res.append(&mut tail);
                assert(res@ =~= spec_value_bytes(self@));
                res
            },
            Parameter::DoubleParam(v) => {
                let mut res: Vec<u8> = Vec::new();
                res.push(4u8);
                let mut tail: Vec<u8> = u64_to_le_bytes(*v);
                res.append(&mut tail);
                assert(res@ =~= spec_value_bytes(self@));
                res
            },
            Parameter::Uint64Param(v) => {
                let mut res: Vec<u8> = Vec::new();
                res.push(5u8);
                let mut tail: Vec<u8> = u64_to_le_bytes(*v);
                res.append(&mut tail);
                assert(res@ =~= spec_value_bytes(self@));
                res
            },
        }
    }

    /// Structural equality of two parameter values, decided at the model
    /// level so that contracts can speak of it.
    pub fn same_value(&self, other: &Parameter) -> (r: bool)
        ensures
            r == (self@ == other@),
    {
        match (self, other) {
            (Parameter::BoolParam(a), Parameter::BoolParam(b)) => *a == *b,
            (Parameter::Int64Param(a), Parameter::Int64Param(b)) => *a == *b,
            (Parameter::StringParam(a), Parameter::StringParam(b)) => *a == *b,
            (Parameter::DoubleParam(a), Parameter::DoubleParam(b)) => *a == *b,
            (Parameter::Uint64Param(a), Parameter::Uint64Param(b)) => *a == *b,
            _ => false,
        }
    }

    /// A copy of this value; its model is unchanged.
    pub fn duplicate(&self) -> (r: Parameter)
        ensures
            r@ == self@,
    {
        match self {
            Parameter::BoolParam(v) => Parameter::BoolParam(*v),
            Parameter::Int64Param(v) => Parameter::Int64Param(*v),
            Parameter::StringParam(v) => Parameter::StringParam(v.clone()),
            Parameter::DoubleParam(v) => Parameter::DoubleParam(*v),
            Parameter::Uint64Param(v) => Parameter::Uint64Param(*v),
        }
    }
}

/// Equality of two optional parameter values at the model level.
pub fn same_opt_value(a: &Option<Parameter>, b: &Option<Parameter>) -> (r: bool)
    ensures
        r == (a.deep_view() == b.deep_view()),
{
    match (a, b) {
        (Option::None, Option::None) => true,
        (Option::Some(x), Option::Some(y)) => x.same_value(y),
        _ => false,
    }
}

/// A copy of an optional parameter value; its model is unchanged.
pub fn duplicate_opt(a: &Option<Parameter>) -> (r: Option<Parameter>)
    ensures
        r.deep_view() == a.deep_view(),
        r is Some <==> a is Some,
{
    match a {
        Option::None => Option::None,
        Option::Some(x) => Option::Some(x.duplicate()),
    }
}

} // verus!
