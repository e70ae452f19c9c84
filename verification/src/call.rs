//! The two load-setting calls of the Glutton pallet, each inside the sudo
//! envelope that lets it run with root privilege.

use crate::text::{decimal, decimal_string};
use vstd::prelude::*;

verus! {

/// Which of a Glutton parachain's two loads a call sets.
#[derive(Clone, Copy, Debug, PartialEq, Eq, Structural)]
pub enum LoadKind {
    Storage,
    Compute,
}

/// An unsigned fixed-point number: `0` is the numerator of a fraction whose
/// denominator is one billion, so that 1_400_000_000 stands for 140%.
#[derive(Clone, Copy, Debug, PartialEq, Eq, Structural)]
pub struct FixedU64(pub u64);

/// A call of the Glutton pallet.
#[derive(Clone, Copy, Debug, PartialEq, Eq, Structural)]
pub enum GluttonCall {
    SetStorage { storage: FixedU64 },
    SetCompute { compute: FixedU64 },
}

/// A Glutton call inside the sudo envelope: the node executes `call` with
/// root privilege on behalf of the sudo account that signed for it.
#[derive(Clone, Copy, Debug, PartialEq, Eq, Structural)]
pub struct AdministrativeCall {
    pub call: GluttonCall,
}

/// The call that sets the load of `kind` to `value`, in its envelope.
pub open spec fn load_call(kind: LoadKind, value: u64) -> AdministrativeCall {
    AdministrativeCall {
        call: match kind {
            LoadKind::Storage => GluttonCall::SetStorage { storage: FixedU64(value) },
            LoadKind::Compute => GluttonCall::SetCompute { compute: FixedU64(value) },
        },
    }
}

impl AdministrativeCall {
    /// The load that the enclosed call sets.
    pub open spec fn spec_kind(self) -> LoadKind {
        match self.call {
            GluttonCall::SetStorage { .. } => LoadKind::Storage,
            GluttonCall::SetCompute { .. } => LoadKind::Compute,
        }
    }

    /// The numerator that the enclosed call carries.
    pub open spec fn spec_value(self) -> u64 {
        match self.call {
            GluttonCall::SetStorage { storage } => storage.0,
            GluttonCall::SetCompute { compute } => compute.0,
        }
    }

    /// The load that the enclosed call sets.
    #[verifier::when_used_as_spec(spec_kind)]
    pub fn kind(self) -> (kind: LoadKind)
        ensures
            kind == self.spec_kind(),
    {
        match self.call {
            GluttonCall::SetStorage { .. } => LoadKind::Storage,
            GluttonCall::SetCompute { .. } => LoadKind::Compute,
        }
    }

    /// The numerator that the enclosed call carries.
    #[verifier::when_used_as_spec(spec_value)]
    pub fn value(self) -> (value: u64)
        ensures
            value == self.spec_value(),
    {
        match self.call {
            GluttonCall::SetStorage { storage } => storage.0,
            GluttonCall::SetCompute { compute } => compute.0,
        }
    }
}

/// The enveloped call that sets the storage load; any `value` is taken as
/// it is, the node alone judges it.
pub fn build_set_storage(value: u64) -> (call: AdministrativeCall)
    ensures
        call == load_call(LoadKind::Storage, value),
{
    AdministrativeCall { call: GluttonCall::SetStorage { storage: FixedU64(value) } }
}

/// The enveloped call that sets the compute load; any `value` is taken as
/// it is, the node alone judges it.
pub fn build_set_compute(value: u64) -> (call: AdministrativeCall)
    ensures
        call == load_call(LoadKind::Compute, value),
{
    AdministrativeCall { call: GluttonCall::SetCompute { compute: FixedU64(value) } }
}

/// The enveloped call that sets the load of `kind`.
pub fn build_call(kind: LoadKind, value: u64) -> (call: AdministrativeCall)
    ensures
        call == load_call(kind, value),
{
    match kind {
        LoadKind::Storage => build_set_storage(value),
        LoadKind::Compute => build_set_compute(value),
    }
}

/// A call is told apart by what it holds: reading a built call gives back
/// the kind and the value it was built from, so equal inputs give equal
/// calls, different values give different calls, and a storage call is
/// never a compute call.
pub proof fn lemma_calls_differ_as_inputs_do(
    kind_a: LoadKind,
    value_a: u64,
    kind_b: LoadKind,
    value_b: u64,
)
    ensures
        load_call(kind_a, value_a).spec_kind() == kind_a,
        load_call(kind_a, value_a).spec_value() == value_a,
        load_call(kind_a, value_a) == load_call(kind_b, value_b) <==> kind_a == kind_b && value_a
            == value_b,
        load_call(LoadKind::Storage, value_a) != load_call(LoadKind::Compute, value_b),
{
}

/// How a call is written in a notice.
pub open spec fn call_text(call: AdministrativeCall) -> Seq<char> {
    match call.call {
        GluttonCall::SetStorage { storage } => "set_storage { storage: "@ + decimal(
            storage.0 as nat,
        ) + " }"@,
        GluttonCall::SetCompute { compute } => "set_compute { compute: "@ + decimal(
            compute.0 as nat,
        ) + " }"@,
    }
}

/// Writes a call as a notice shows it.
pub fn describe_call(call: AdministrativeCall) -> (text: String)
    ensures
        text@ == call_text(call),
{
    match call.call {
        GluttonCall::SetStorage { storage } => {
            let mut text = String::from_str("set_storage { storage: ");
            text.append(decimal_string(storage.0).as_str());
            text.append(" }");
            text
        },
        GluttonCall::SetCompute { compute } => {
            let mut text = String::from_str("set_compute { compute: ");
            text.append(decimal_string(compute.0).as_str());
            text.append(" }");
            text
        },
    }
}

} // verus!
