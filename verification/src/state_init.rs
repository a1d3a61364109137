//! The initial values of a component's state signals, taken from the
//! states' declared defaults.
use crate::ir::{IrLiteral, IrState, IrStateType, IrType};
use vstd::prelude::*;

verus! {

/// The value a state's signal starts with.
#[derive(Debug)]
pub enum InitialValue {
    I32(i32),
    Str(String),
    Bool(bool),
    I32List(Vec<i32>),
    StrList(Vec<String>),
    BoolList(Vec<bool>),
}

/// The content of an [`InitialValue`].
pub enum InitialValueV {
    I32(i32),
    Str(Seq<char>),
    Bool(bool),
    I32List(Seq<i32>),
    StrList(Seq<Seq<char>>),
    BoolList(Seq<bool>),
}

pub open spec fn initial_view(v: InitialValue) -> InitialValueV {
    match v {
        InitialValue::I32(n) => InitialValueV::I32(n),
        InitialValue::Str(s) => InitialValueV::Str(s@),
        InitialValue::Bool(b) => InitialValueV::Bool(b),
        InitialValue::I32List(v) => InitialValueV::I32List(v@),
        InitialValue::StrList(v) => InitialValueV::StrList(v@.map_values(|s: String| s@)),
        InitialValue::BoolList(v) => InitialValueV::BoolList(v@),
    }
}

/// The integers among `items`, in order; other items are dropped.
pub open spec fn ints_in(items: Seq<IrLiteral>) -> Seq<i32>
    decreases items.len(),
{
    if items.len() == 0 {
        Seq::empty()
    } else {
        let rest = ints_in(items.drop_last());
        match items.last() {
            IrLiteral::Int(n) => rest.push(n),
            _ => rest,
        }
    }
}

/// The strings among `items`, in order; other items are dropped.
pub open spec fn strs_in(items: Seq<IrLiteral>) -> Seq<Seq<char>>
    decreases items.len(),
{
    if items.len() == 0 {
        Seq::empty()
    } else {
        let rest = strs_in(items.drop_last());
        match items.last() {
            IrLiteral::Str(s) => rest.push(s@),
            _ => rest,
        }
    }
}

/// The booleans among `items`, in order; other items are dropped.
pub open spec fn bools_in(items: Seq<IrLiteral>) -> Seq<bool>
    decreases items.len(),
{
    if items.len() == 0 {
        Seq::empty()
    } else {
        let rest = bools_in(items.drop_last());
        match items.last() {
            IrLiteral::Bool(b) => rest.push(b),
            _ => rest,
        }
    }
}

/// A state's initial value: its default when that is a literal of the
/// state's type, else the type's zero (`0`, `""`, `false`); a collection
/// starts with the items of its list default that have the element type, in
/// order, and empty when the default is no list.
pub open spec fn initial_value_spec(ty: IrStateType, default: IrLiteral) -> InitialValueV {
    match ty {
        IrStateType::Scalar(IrType::I32) => InitialValueV::I32(
            match default {
                IrLiteral::Int(n) => n,
                _ => 0,
            },
        ),
        IrStateType::Scalar(IrType::Str) => InitialValueV::Str(
            match default {
                IrLiteral::Str(s) => s@,
                _ => Seq::empty(),
            },
        ),
        IrStateType::Scalar(IrType::Bool) => InitialValueV::Bool(
            match default {
                IrLiteral::Bool(b) => b,
                _ => false,
            },
        ),
        IrStateType::Collection(IrType::I32) => InitialValueV::I32List(
            match default {
                IrLiteral::List(items) => ints_in(items@),
                _ => Seq::empty(),
            },
        ),
        IrStateType::Collection(IrType::Str) => InitialValueV::StrList(
            match default {
                IrLiteral::List(items) => strs_in(items@),
                _ => Seq::empty(),
            },
        ),
        IrStateType::Collection(IrType::Bool) => InitialValueV::BoolList(
            match default {
                IrLiteral::List(items) => bools_in(items@),
                _ => Seq::empty(),
            },
        ),
    }
}

fn ints_of(items: &Vec<IrLiteral>) -> (out: Vec<i32>)
    ensures
        out@ == ints_in(items@),
{
    let mut out = Vec::new();
    let mut k: usize = 0;
    while k < items.len()
        invariant
            k <= items@.len(),
            out@ == ints_in(items@.subrange(0, k as int)),
        decreases items@.len() - k,
    {
        assert(items@.subrange(0, k as int + 1).drop_last() =~= items@.subrange(0, k as int));
        if let IrLiteral::Int(n) = &items[k] {
            out.push(*n);
        }
        k += 1;
    }
    assert(items@.subrange(0, items@.len() as int) =~= items@);
    out
}

fn strs_of(items: &Vec<IrLiteral>) -> (out: Vec<String>)
    ensures
        out@.map_values(|s: String| s@) == strs_in(items@),
{
    let mut out: Vec<String> = Vec::new();
    let mut k: usize = 0;
    while k < items.len()
        invariant
            k <= items@.len(),
            out@.map_values(|s: String| s@) == strs_in(items@.subrange(0, k as int)),
        decreases items@.len() - k,
    {
        assert(items@.subrange(0, k as int + 1).drop_last() =~= items@.subrange(0, k as int));
        if let IrLiteral::Str(s) = &items[k] {
            let ghost before = out@;
            out.push(s.clone());
            assert(out@.map_values(|s: String| s@) =~= before.map_values(|s: String| s@).push(s@));
        }
        k += 1;
    }
    assert(items@.subrange(0, items@.len() as int) =~= items@);
    out
}

fn bools_of(items: &Vec<IrLiteral>) -> (out: Vec<bool>)
    ensures
        out@ == bools_in(items@),
{
    let mut out = Vec::new();
    let mut k: usize = 0;
    while k < items.len()
        invariant
            k <= items@.len(),
            out@ == bools_in(items@.subrange(0, k as int)),
        decreases items@.len() - k,
    {
        assert(items@.subrange(0, k as int + 1).drop_last() =~= items@.subrange(0, k as int));
        if let IrLiteral::Bool(b) = &items[k] {
            out.push(*b);
        }
        k += 1;
    }
    assert(items@.subrange(0, items@.len() as int) =~= items@);
    out
}

/// The value the signal of `state` starts with.
pub fn initial_signal_value(state: &IrState) -> (v: InitialValue)
    ensures
        initial_view(v) == initial_value_spec(state.ty, state.default),
{
    match state.ty {
        IrStateType::Scalar(IrType::I32) => InitialValue::I32(
            match &state.default {
                IrLiteral::Int(n) => *n,
                _ => 0,
            },
        ),
        IrStateType::Scalar(IrType::Str) => InitialValue::Str(
            match &state.default {
                IrLiteral::Str(s) => s.clone(),
                _ => String::new(),
            },
        ),
        IrStateType::Scalar(IrType::Bool) => InitialValue::Bool(
            match &state.default {
                IrLiteral::Bool(b) => *b,
                _ => false,
            },
        ),
        IrStateType::Collection(IrType::I32) => InitialValue::I32List(
            match &state.default {
                IrLiteral::List(items) => ints_of(items),
                _ => Vec::new(),
            },
        ),
        IrStateType::Collection(IrType::Str) => {
            let list = match &state.default {
                IrLiteral::List(items) => strs_of(items),
                _ => Vec::new(),
            };
            assert(list@.len() == 0 ==> list@.map_values(|s: String| s@) =~= Seq::<Seq<char>>::empty());
            InitialValue::StrList(list)
        },
        IrStateType::Collection(IrType::Bool) => InitialValue::BoolList(
            match &state.default {
                IrLiteral::List(items) => bools_of(items),
                _ => Vec::new(),
            },
        ),
    }
}

/// The name and starting value of each state's signal, in declaration order.
pub fn initial_signal_values(states: &Vec<IrState>) -> (out: Vec<(String, InitialValue)>)
    ensures
        out@.len() == states@.len(),
        forall|i: int|
            0 <= i < states@.len() ==> {
                &&& (#[trigger] out@[i]).0@ == states@[i].name@
                &&& initial_view(out@[i].1) == initial_value_spec(states@[i].ty, states@[i].default)
            },
{
    let mut out: Vec<(String, InitialValue)> = Vec::new();
    let mut k: usize = 0;
    while k < states.len()
        invariant
            k <= states@.len(),
            out@.len() == k,
            forall|i: int|
                0 <= i < k ==> {
                    &&& (#[trigger] out@[i]).0@ == states@[i].name@
                    &&& initial_view(out@[i].1) == initial_value_spec(states@[i].ty, states@[i].default)
                },
        decreases states@.len() - k,
    {
        let state = &states[k];
        out.push((state.name.clone(), initial_signal_value(state)));
        k += 1;
    }
    out
}

} // verus!

verus! {

/// An integer is among the integers of `items` exactly when some item is
/// that integer literal.
pub proof fn law_ints_in_are_the_int_items(items: Seq<IrLiteral>, x: i32)
    ensures
        ints_in(items).contains(x) <==> exists|i: int| 0 <= i < items.len() && #[trigger] items[i] == IrLiteral::Int(x),
    decreases items.len(),
{
    if items.len() > 0 {
        let rest = items.drop_last();
        law_ints_in_are_the_int_items(rest, x);
        if exists|i: int| 0 <= i < rest.len() && #[trigger] rest[i] == IrLiteral::Int(x) {
            let i = choose|i: int| 0 <= i < rest.len() && #[trigger] rest[i] == IrLiteral::Int(x);
            assert(items[i] == IrLiteral::Int(x));
        }
        if exists|i: int| 0 <= i < items.len() && #[trigger] items[i] == IrLiteral::Int(x) {
            let i = choose|i: int| 0 <= i < items.len() && #[trigger] items[i] == IrLiteral::Int(x);
            if i < rest.len() {
                assert(rest[i] == IrLiteral::Int(x));
            }
        }
        if ints_in(items).contains(x) && !ints_in(rest).contains(x) {
            let j = choose|j: int| 0 <= j < ints_in(items).len() && ints_in(items)[j] == x;
            assert(items.last() == IrLiteral::Int(x));
            assert(items[items.len() - 1] == IrLiteral::Int(x));
        }
        if ints_in(rest).contains(x) {
            let j = choose|j: int| 0 <= j < ints_in(rest).len() && ints_in(rest)[j] == x;
            assert(ints_in(items)[j] == x);
        }
        if items.last() == IrLiteral::Int(x) {
            assert(ints_in(items)[ints_in(items).len() - 1] == x);
        }
    }
}

/// A bool is among the bools of `items` exactly when some item is that bool
/// literal.
pub proof fn law_bools_in_are_the_bool_items(items: Seq<IrLiteral>, x: bool)
    ensures
        bools_in(items).contains(x) <==> exists|i: int| 0 <= i < items.len() && #[trigger] items[i] == IrLiteral::Bool(x),
    decreases items.len(),
{
    if items.len() > 0 {
        let rest = items.drop_last();
        law_bools_in_are_the_bool_items(rest, x);
        if exists|i: int| 0 <= i < rest.len() && #[trigger] rest[i] == IrLiteral::Bool(x) {
            let i = choose|i: int| 0 <= i < rest.len() && #[trigger] rest[i] == IrLiteral::Bool(x);
            assert(items[i] == IrLiteral::Bool(x));
        }
        if exists|i: int| 0 <= i < items.len() && #[trigger] items[i] == IrLiteral::Bool(x) {
            let i = choose|i: int| 0 <= i < items.len() && #[trigger] items[i] == IrLiteral::Bool(x);
            if i < rest.len() {
                assert(rest[i] == IrLiteral::Bool(x));
            }
        }
        if bools_in(items).contains(x) && !bools_in(rest).contains(x) {
            let j = choose|j: int| 0 <= j < bools_in(items).len() && bools_in(items)[j] == x;
            assert(items[items.len() - 1] == IrLiteral::Bool(x));
        }
        if bools_in(rest).contains(x) {
            let j = choose|j: int| 0 <= j < bools_in(rest).len() && bools_in(rest)[j] == x;
            assert(bools_in(items)[j] == x);
        }
        if items.last() == IrLiteral::Bool(x) {
            assert(bools_in(items)[bools_in(items).len() - 1] == x);
        }
    }
}

/// A scalar state starts at its default when that is a literal of its type
/// and at the type's zero (`0`, empty, `false`) otherwise.
pub proof fn law_scalar_states_start_at_their_default(ty: IrType, default: IrLiteral)
    ensures
        ty == IrType::I32 ==> initial_value_spec(IrStateType::Scalar(ty), default) == InitialValueV::I32(
            match default {
                IrLiteral::Int(n) => n,
                _ => 0,
            },
        ),
        ty == IrType::Bool ==> initial_value_spec(IrStateType::Scalar(ty), default) == InitialValueV::Bool(
            default == IrLiteral::Bool(true),
        ),
        ty == IrType::Str ==> (initial_value_spec(IrStateType::Scalar(ty), default) matches InitialValueV::Str(s) && (
        default matches IrLiteral::Str(d) ==> s == d@) && (!(default is Str) ==> s.len() == 0)),
{
}

} // verus!
