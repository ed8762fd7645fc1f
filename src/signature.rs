use vstd::prelude::*;

verus! {

/// One entry of a function's parameter list, as declared.
#[derive(Clone, Debug, PartialEq, Eq)]
pub enum Binding {
    /// `self`, `&self`, `&mut self` or `self: T`.
    Receiver,
    /// A parameter bound to a plain identifier (`name: T`, `mut name: T`).
    Simple { name: String },
    /// A destructuring pattern (`Point { x, y }: Point`, `(a, b): (u8, u8)`).
    Pattern,
}

/// A parameter other than the receiver.
#[derive(Clone, Debug, PartialEq, Eq)]
pub enum Param {
    /// Bound to this identifier; its value can be captured automatically.
    Simple { name: String },
    /// Bound by a pattern; opaque, never captured automatically.
    Destructured,
}

/// The shape of the function to be wrapped.
#[derive(Clone, Debug, PartialEq, Eq)]
pub struct FunctionDescriptor {
    pub name: String,
    pub is_async: bool,
    pub has_receiver: bool,
    /// The parameters after the receiver, in declaration order.
    pub params: Vec<Param>,
}

pub open spec fn is_receiver(b: Binding) -> bool {
    b is Receiver
}

/// The parameters of a binding list, receivers left out, order kept.
pub open spec fn params_of(bs: Seq<Binding>) -> Seq<Param>
    decreases bs.len(),
{
    if bs.len() == 0 {
        seq![]
    } else {
        let rest = params_of(bs.drop_last());
        match bs.last() {
            Binding::Receiver => rest,
            Binding::Simple { name } => rest.push(Param::Simple { name }),
            Binding::Pattern => rest.push(Param::Destructured),
        }
    }
}

/// Describes a function from its name, its kind and its parameter bindings.
/// A receiver is recorded as `has_receiver` and is not a parameter.
pub fn analyze_signature(name: String, is_async: bool, bindings: Vec<Binding>) -> (r:
    FunctionDescriptor)
    ensures
        r.name == name,
        r.is_async == is_async,
        r.has_receiver == exists|i: int| 0 <= i < bindings@.len() && is_receiver(#[trigger] bindings@[i]),
        r.params@ == params_of(bindings@),
{
    let ghost bs = bindings@;
    let total = bindings.len();
    let mut rest = bindings;
    let mut params: Vec<Param> = Vec::new();
    let mut has_receiver = false;
    let mut i: usize = 0;
    while rest.len() > 0
        invariant
            bs == bs.subrange(0, i as int) + rest@,
            i + rest@.len() == bs.len(),
            bs.len() == total,
            params@ == params_of(bs.subrange(0, i as int)),
            has_receiver == exists|j: int| 0 <= j < i && is_receiver(#[trigger] bs[j]),
        decreases rest@.len(),
    {
        let b = rest.remove(0);
        assert(b == bs[i as int]);
        assert(bs.subrange(0, i + 1).drop_last() =~= bs.subrange(0, i as int));
        match b {
            Binding::Receiver => {
                has_receiver = true;
            },
            Binding::Simple { name } => {
                params.push(Param::Simple { name });
            },
            Binding::Pattern => {
                params.push(Param::Destructured);
            },
        }
        i = i + 1;
        assert(bs =~= bs.subrange(0, i as int) + rest@);
    }
    assert(bs.subrange(0, i as int) =~= bs);
    FunctionDescriptor { name, is_async, has_receiver, params }
}

} // verus!
