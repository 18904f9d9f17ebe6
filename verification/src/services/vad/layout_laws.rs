//! What holds of the roles that a model's inputs get.

use crate::services::vad::layout::{
    audio_index, dimension_product, first_flat, infer_input_layout, inputs_of,
    normalize_shape, normalized_shape, ElementType, StateInputSpec, TensorInput, VadInputLayout,
};
use crate::services::vad::VadService;
use vstd::prelude::*;
#[allow(unused_imports)]
use vstd::string::*;

verus! {

/// Whether these are the places of all inputs of one element type, in their order.
pub open spec fn are_places(
    inputs: Seq<TensorInput>,
    element: ElementType,
    places: Seq<int>,
) -> bool {
    &&& forall|k: int|
        0 <= k < places.len() ==> 0 <= #[trigger] places[k] < inputs.len()
            && inputs[places[k]].element == element
    &&& forall|k: int, l: int|
        0 <= k < l < places.len() ==> #[trigger] places[k] < #[trigger] places[l]
    &&& forall|i: int|
        0 <= i < inputs.len() && (#[trigger] inputs[i]).element == element ==> places.contains(i)
}

/// Whether input `a` is the one for the audio: the first of floats that has two dimensions at most,
/// or, where there is none, the first of floats.
pub open spec fn takes_audio(inputs: Seq<TensorInput>, a: int) -> bool {
    &&& 0 <= a < inputs.len()
    &&& inputs[a].element is Float32
    &&& if inputs[a].shape@.len() <= 2 {
        forall|i: int|
            0 <= i < a && (#[trigger] inputs[i]).element is Float32 ==> inputs[i].shape@.len() > 2
    } else {
        &&& forall|i: int| 0 <= i < a ==> !((#[trigger] inputs[i]).element is Float32)
        &&& forall|i: int|
            0 <= i < inputs.len() && (#[trigger] inputs[i]).element is Float32
                ==> inputs[i].shape@.len() > 2
    }
}

/// Whether an audio input of this shape takes this many samples: its second dimension, or its only
/// one, where that is fixed.
pub open spec fn takes_samples(shape: Seq<i64>, samples: Option<usize>) -> bool {
    if shape.len() >= 2 && 0 < shape[1] {
        shape[1] <= usize::MAX ==> samples is Some && samples->0 == shape[1]
    } else if shape.len() == 1 && 0 < shape[0] {
        shape[0] <= usize::MAX ==> samples is Some && samples->0 == shape[0]
    } else {
        samples is None
    }
}

/// Whether a shape is another one with a one for every dimension that is not fixed, and for none.
pub open spec fn is_concrete(shape: Seq<i64>, concrete: Seq<i64>) -> bool {
    if shape.len() == 0 {
        concrete.len() == 1 && concrete[0] == 1
    } else {
        &&& concrete.len() == shape.len()
        &&& forall|i: int|
            0 <= i < shape.len() ==> #[trigger] concrete[i] == if shape[i] <= 0 {
                1
            } else {
                shape[i] as int
            }
    }
}

/// How many elements a tensor of this shape has.
pub open spec fn elements(shape: Seq<i64>) -> int
    decreases shape.len(),
{
    if shape.len() == 0 {
        1
    } else {
        shape[0] * elements(shape.skip(1))
    }
}

/// Whether every dimension is a size.
pub open spec fn are_sizes(shape: Seq<i64>) -> bool {
    forall|i: int| 0 <= i < shape.len() ==> 1 <= #[trigger] shape[i] <= usize::MAX
}

/// Whether a state is the one that an input declares: of its name, with its shape made concrete and
/// as many elements as that has, as far as they can be counted.
pub open spec fn is_state_of(state: StateInputSpec, input: TensorInput) -> bool {
    &&& state.name@ == input.name@
    &&& is_concrete(input.shape@, state.shape@)
    &&& are_sizes(state.shape@) ==> state.len == if elements(state.shape@) <= usize::MAX {
        elements(state.shape@)
    } else {
        usize::MAX as int
    }
}

/// Whether a layout gives each input its role: the audio goes to input `a`, the floats other than
/// that, at these places, carry the states, and the rate goes to the first of the integers.
pub open spec fn gives_roles(
    inputs: Seq<TensorInput>,
    layout: VadInputLayout,
    a: int,
    places: Seq<int>,
) -> bool {
    &&& takes_audio(inputs, a)
    &&& layout.audio_input@ == inputs[a].name@
    &&& takes_samples(inputs[a].shape@, layout.audio_input_samples)
    &&& are_places(inputs, ElementType::Float32, places)
    &&& layout.state_inputs@.len() == places.len() - 1
    &&& forall|k: int|
        0 <= k < places.len() - 1 ==> is_state_of(
            #[trigger] layout.state_inputs@[k],
            inputs[
                if places[k] < a {
                    places[k]
                } else {
                    places[k + 1]
                }
            ],
        )
    &&& match layout.sample_rate_input {
        Some(name) => exists|i: int|
            0 <= i < inputs.len() && (#[trigger] inputs[i]).element is Int64 && name@
                == inputs[i].name@ && (forall|j: int|
                0 <= j < i ==> !((#[trigger] inputs[j]).element is Int64)),
        None => forall|i: int|
            0 <= i < inputs.len() ==> !((#[trigger] inputs[i]).element is Int64),
    }
}

/// The inputs of one element type stand at places of their own.
proof fn lemma_places(inputs: Seq<TensorInput>, element: ElementType) -> (places: Seq<int>)
    ensures
        are_places(inputs, element, places),
        places.len() == inputs_of(inputs, element).len(),
        forall|k: int|
            0 <= k < places.len() ==> inputs[#[trigger] places[k]] == inputs_of(inputs, element)[k],
    decreases inputs.len(),
{
    reveal(Seq::filter);
    if inputs.len() == 0 {
        Seq::empty()
    } else {
        let before = inputs.drop_last();
        let rest = lemma_places(before, element);
        let last = inputs.len() - 1;
        let places = if inputs.last().element == element {
            rest.push(last)
        } else {
            rest
        };
        let all = inputs_of(inputs, element);
        assert(all == if inputs.last().element == element {
            inputs_of(before, element).push(inputs.last())
        } else {
            inputs_of(before, element)
        });
        assert forall|k: int| 0 <= k < places.len() implies 0 <= #[trigger] places[k]
            < inputs.len() && inputs[places[k]].element == element && inputs[places[k]]
            == all[k] by {
            if k < rest.len() {
                assert(before[rest[k]] == inputs[rest[k]]);
            }
        }
        assert forall|k: int, l: int| 0 <= k < l < places.len() implies #[trigger] places[k]
            < #[trigger] places[l] by {
            if l < rest.len() {
                assert(rest[k] < rest[l]);
            } else {
                assert(rest[k] < before.len());
            }
        }
        assert forall|i: int|
            0 <= i < inputs.len() && (#[trigger] inputs[i]).element
                == element implies places.contains(i) by {
            if i < last {
                assert(before[i].element == element);
                let k = choose|k: int| 0 <= k < rest.len() && rest[k] == i;
                assert(places[k] == i);
            } else {
                assert(places[rest.len() as int] == i);
            }
        }
        places
    }
}

proof fn lemma_first_flat(floats: Seq<TensorInput>, i: int)
    requires
        0 <= i <= floats.len(),
    ensures
        match first_flat(floats, i) {
            Some(k) => {
                &&& i <= k < floats.len()
                &&& floats[k].shape@.len() <= 2
                &&& forall|j: int| i <= j < k ==> (#[trigger] floats[j]).shape@.len() > 2
            },
            None => forall|j: int|
                i <= j < floats.len() ==> (#[trigger] floats[j]).shape@.len() > 2,
        },
    decreases floats.len() - i,
{
    if i < floats.len() && floats[i].shape@.len() > 2 {
        lemma_first_flat(floats, i + 1);
    }
}

/// A first dimension less or a last one less, the elements are a part of all.
proof fn lemma_elements_of_last(shape: Seq<i64>)
    requires
        shape.len() > 0,
        are_sizes(shape),
    ensures
        elements(shape) == elements(shape.drop_last()) * shape.last(),
        elements(shape) >= 1,
        elements(shape.drop_last()) >= 1,
    decreases shape.len(),
{
    if shape.len() == 1 {
        assert(shape.skip(1) =~= Seq::empty());
        assert(shape.drop_last() =~= Seq::empty());
        assert(elements(shape.skip(1)) == 1);
    } else {
        let rest = shape.skip(1);
        assert forall|i: int| 0 <= i < rest.len() implies 1 <= #[trigger] rest[i] <= usize::MAX by {
            assert(rest[i] == shape[i + 1]);
        }
        lemma_elements_of_last(rest);
        assert(shape.drop_last().skip(1) =~= rest.drop_last());
        assert(shape.drop_last()[0] == shape[0]);
        let d = shape[0] as int;
        let e = elements(rest.drop_last());
        let l = shape.last() as int;
        assert(d * (e * l) == (d * e) * l && d * e >= 1 && d * (e * l) >= 1) by (nonlinear_arith)
            requires
                d >= 1,
                e >= 1,
                l >= 1,
        ;
    }
}

/// The elements are counted as far as they can be.
proof fn lemma_elements_are_counted(shape: Seq<i64>)
    requires
        are_sizes(shape),
    ensures
        elements(shape) >= 1,
        dimension_product(shape) == if elements(shape) <= usize::MAX {
            elements(shape)
        } else {
            usize::MAX as int
        },
    decreases shape.len(),
{
    if shape.len() > 0 {
        let rest = shape.drop_last();
        assert forall|i: int| 0 <= i < rest.len() implies 1 <= #[trigger] rest[i] <= usize::MAX by {
            assert(rest[i] == shape[i]);
        }
        lemma_elements_are_counted(rest);
        lemma_elements_of_last(shape);
        let e = elements(rest);
        let c = dimension_product(rest) as int;
        let d = shape.last() as int;
        assert(1 <= shape[shape.len() - 1] <= usize::MAX);
        assert((shape.last() as usize) == d);
        let max = usize::MAX as int;
        if e > max {
            assert(c * d >= max && e * d > max && (c * d <= max ==> c * d == max))
                by (nonlinear_arith)
                requires
                    c == max,
                    e > max,
                    max >= 1,
                    d >= 1,
            ;
        }
    }
}

proof fn lemma_state_of(state: StateInputSpec, input: TensorInput)
    requires
        state.describes(input),
    ensures
        is_state_of(state, input),
{
    let shape = normalized_shape(input.shape@);
    if are_sizes(state.shape@) {
        lemma_elements_are_counted(shape);
    }
    assert(is_concrete(input.shape@, shape));
}

proof fn lemma_roles(inputs: Seq<TensorInput>, layout: VadInputLayout)
    requires
        layout.is_layout_of(inputs),
    ensures
        exists|a: int, places: Seq<int>| #[trigger] gives_roles(inputs, layout, a, places),
{
    let floats = inputs_of(inputs, ElementType::Float32);
    let ints = inputs_of(inputs, ElementType::Int64);
    let places = lemma_places(inputs, ElementType::Float32);
    let numbers = lemma_places(inputs, ElementType::Int64);
    lemma_first_flat(floats, 0);
    let at = audio_index(floats);
    let a = places[at];
    assert forall|i: int|
        0 <= i < inputs.len() && (#[trigger] inputs[i]).element is Float32 implies exists|k: int|
        0 <= k < places.len() && #[trigger] places[k] == i && inputs[i] == floats[k] && (i < a
            <==> k < at) by {
        assert(places.contains(i));
        let k = choose|k: int| 0 <= k < places.len() && places[k] == i;
        assert(places[k] == i && inputs[i] == floats[k]);
        if k < at {
            assert(places[k] < places[at]);
        } else if at < k {
            assert(places[at] < places[k]);
        }
    }
    assert(takes_audio(inputs, a));
    let states = floats.remove(at);
    assert forall|k: int| 0 <= k < places.len() - 1 implies is_state_of(
        #[trigger] layout.state_inputs@[k],
        inputs[
            if places[k] < a {
                places[k]
            } else {
                places[k + 1]
            }
        ],
    ) by {
        assert(layout.state_inputs@[k].describes(states[k]));
        lemma_state_of(layout.state_inputs@[k], states[k]);
        if k < at {
            assert(places[k] < places[at]);
        } else if at < k {
            assert(places[at] < places[k]);
        }
        assert(inputs[places[k]] == floats[k] && inputs[places[k + 1]] == floats[k + 1]);
    }
    match layout.sample_rate_input {
        Some(name) => {
            let i = numbers[0];
            assert(inputs[numbers[0]] == ints[0]);
            assert forall|j: int| 0 <= j < i implies !((#[trigger] inputs[j]).element is Int64) by {
                if inputs[j].element is Int64 {
                    assert(numbers.contains(j));
                    let k = choose|k: int| 0 <= k < numbers.len() && numbers[k] == j;
                    if k > 0 {
                        assert(numbers[0] < numbers[k]);
                    }
                }
            }
        },
        None => {
            assert forall|i: int| 0 <= i < inputs.len() implies !((
            #[trigger] inputs[i]).element is Int64) by {
                if inputs[i].element is Int64 {
                    assert(numbers.contains(i));
                }
            }
        },
    }
    assert(gives_roles(inputs, layout, a, places));
}

proof fn lemma_no_floats(inputs: Seq<TensorInput>)
    ensures
        inputs_of(inputs, ElementType::Float32).len() == 0 <==> forall|i: int|
            0 <= i < inputs.len() ==> !((#[trigger] inputs[i]).element is Float32),
{
    let places = lemma_places(inputs, ElementType::Float32);
    if places.len() == 0 {
        assert forall|i: int| 0 <= i < inputs.len() implies !((
        #[trigger] inputs[i]).element is Float32) by {
            if inputs[i].element is Float32 {
                assert(places.contains(i));
            }
        }
    } else {
        assert(inputs[places[0]].element is Float32);
    }
}

/// Every input of a model gets its role: the audio goes to the first of floats with at most two
/// dimensions, or else the first of floats, all other floats carry states, in their order, and the
/// rate goes to the first of integers. A model without floats is refused, and no other.
pub proof fn law_inputs_have_their_roles(
    inputs: &Vec<TensorInput>,
    r: Result<VadInputLayout, String>,
)
    requires
        call_ensures(infer_input_layout, (inputs,), r),
    ensures
        r is Err <==> forall|i: int|
            0 <= i < inputs@.len() ==> !((#[trigger] inputs@[i]).element is Float32),
        r matches Err(e) ==> e@ == "VAD model has no float32 input tensor"@,
        r matches Ok(layout) ==> exists|a: int, places: Seq<int>| #[trigger]
            gives_roles(inputs@, layout, a, places),
{
    lemma_no_floats(inputs@);
    if let Ok(layout) = r {
        lemma_roles(inputs@, layout);
    }
}

/// A detector has the roles of its model's inputs, and there is one for every model with a float
/// input.
pub proof fn law_detector_knows_its_model(
    inputs: &Vec<TensorInput>,
    r: Result<VadService, String>,
)
    requires
        call_ensures(VadService::new, (inputs,), r),
    ensures
        r is Err <==> forall|i: int|
            0 <= i < inputs@.len() ==> !((#[trigger] inputs@[i]).element is Float32),
        r matches Err(e) ==> e@ == "VAD model has no float32 input tensor"@,
        r matches Ok(vad) ==> exists|a: int, places: Seq<int>| #[trigger]
            gives_roles(inputs@, vad.input_layout, a, places),
{
    lemma_no_floats(inputs@);
    if let Ok(vad) = r {
        lemma_roles(inputs@, vad.input_layout);
    }
}

/// A shape is made concrete dimension by dimension.
pub proof fn law_shapes_are_made_concrete(shape: &Vec<i64>, r: Vec<i64>)
    requires
        call_ensures(normalize_shape, (shape,), r),
    ensures
        is_concrete(shape@, r@),
{
}

} // verus!
