//! Which of a model's inputs takes the audio, the recurrent state and the sample rate.

use vstd::prelude::*;

verus! {

/// The element type of a model input, as far as it matters here.
#[derive(Debug, Clone, Copy, PartialEq, Eq, Structural)]
pub enum ElementType {
    Float32,
    Int64,
    Other,
}

/// An input that a model declares. Dimensions that are not fixed are not positive.
#[derive(Debug)]
pub struct TensorInput {
    pub name: String,
    pub element: ElementType,
    pub shape: Vec<i64>,
}

/// A recurrent state tensor: its name, its concrete shape and its number of elements.
#[derive(Debug, Clone)]
pub struct StateInputSpec {
    pub name: String,
    pub shape: Vec<i64>,
    pub len: usize,
}

/// The roles of a model's inputs.
#[derive(Debug, Clone)]
pub struct VadInputLayout {
    pub audio_input: String,
    pub audio_input_samples: Option<usize>,
    pub state_inputs: Vec<StateInputSpec>,
    pub sample_rate_input: Option<String>,
}

/// A shape in which every dimension that is not fixed is one; a scalar has one dimension.
pub open spec fn normalized_shape(shape: Seq<i64>) -> Seq<i64> {
    if shape.len() == 0 {
        seq![1i64]
    } else {
        shape.map_values(
            |dim: i64|
                if dim > 0 {
                    dim
                } else {
                    1i64
                },
        )
    }
}

/// `a * b`, or the largest `usize` where that does not fit.
pub open spec fn capped_product(a: usize, b: usize) -> usize {
    if a * b <= usize::MAX {
        (a * b) as usize
    } else {
        usize::MAX
    }
}

/// The product of the dimensions, capped.
pub open spec fn dimension_product(shape: Seq<i64>) -> usize
    decreases shape.len(),
{
    if shape.len() == 0 {
        1
    } else {
        capped_product(dimension_product(shape.drop_last()), shape.last() as usize)
    }
}

/// The number of elements of a tensor of this shape, at least one.
pub open spec fn element_count(shape: Seq<i64>) -> usize {
    if dimension_product(shape) < 1 {
        1
    } else {
        dimension_product(shape)
    }
}

/// How many samples an audio input of this declared shape takes, where that is fixed.
pub open spec fn inferred_samples(shape: Seq<i64>) -> Option<usize> {
    if shape.len() >= 2 && shape[1] > 0 {
        Some(shape[1] as usize)
    } else if shape.len() == 1 && shape[0] > 0 {
        Some(shape[0] as usize)
    } else {
        None
    }
}

/// The inputs of one element type, in order.
pub open spec fn inputs_of(inputs: Seq<TensorInput>, element: ElementType) -> Seq<TensorInput> {
    inputs.filter(|input: TensorInput| input.element == element)
}

/// The first input at or after `i` of rank two at most.
pub open spec fn first_flat(floats: Seq<TensorInput>, i: int) -> Option<int>
    decreases floats.len() - i,
{
    if i >= floats.len() {
        None
    } else if floats[i].shape@.len() <= 2 {
        Some(i)
    } else {
        first_flat(floats, i + 1)
    }
}

/// The place of the audio input among the float inputs: the first of rank two at most, or else
/// the first of all.
pub open spec fn audio_index(floats: Seq<TensorInput>) -> int {
    match first_flat(floats, 0) {
        Some(i) => i,
        None => 0,
    }
}

impl StateInputSpec {
    /// Whether this describes the state tensor that `input` declares.
    pub open spec fn describes(self, input: TensorInput) -> bool {
        &&& self.name@ == input.name@
        &&& self.shape@ == normalized_shape(input.shape@)
        &&& self.len == element_count(normalized_shape(input.shape@))
    }
}

impl VadInputLayout {
    /// Whether this is the layout of a model with these inputs.
    pub open spec fn is_layout_of(self, inputs: Seq<TensorInput>) -> bool {
        let floats = inputs_of(inputs, ElementType::Float32);
        let ints = inputs_of(inputs, ElementType::Int64);
        let audio = audio_index(floats);
        let states = floats.remove(audio);
        &&& floats.len() > 0
        &&& self.audio_input@ == floats[audio].name@
        &&& self.audio_input_samples == inferred_samples(floats[audio].shape@)
        &&& self.state_inputs@.len() == states.len()
        &&& forall|i: int|
            0 <= i < states.len() ==> (#[trigger] self.state_inputs@[i]).describes(states[i])
        &&& match self.sample_rate_input {
            Some(name) => ints.len() > 0 && name@ == ints[0].name@,
            None => ints.len() == 0,
        }
    }
}

/// The shape to allocate for a declared shape.
pub fn normalize_shape(shape: &Vec<i64>) -> (r: Vec<i64>)
    ensures
        r@ == normalized_shape(shape@),
{
    let mut r: Vec<i64> = Vec::new();
    if shape.len() == 0 {
        r.push(1);
        return r;
    }
    let mut i: usize = 0;
    while i < shape.len()
        invariant
            i <= shape.len(),
            shape@.len() > 0,
            r@ == normalized_shape(shape@).take(i as int),
        decreases shape.len() - i,
    {
        let dim: i64 = shape[i];
        r.push(
            if dim > 0 {
                dim
            } else {
                1
            },
        );
        i = i + 1;
    }
    r
}

fn count_elements(shape: &Vec<i64>) -> (r: usize)
    ensures
        r == element_count(shape@),
{
    let mut product: usize = 1;
    let mut i: usize = 0;
    while i < shape.len()
        invariant
            i <= shape.len(),
            product == dimension_product(shape@.take(i as int)),
        decreases shape.len() - i,
    {
        assert(shape@.take(i + 1).drop_last() =~= shape@.take(i as int));
        product = match product.checked_mul(shape[i] as usize) {
            Some(next) => next,
            None => usize::MAX,
        };
        i = i + 1;
    }
    assert(shape@.take(i as int) =~= shape@);
    if product < 1 {
        1
    } else {
        product
    }
}

fn declared_samples(shape: &Vec<i64>) -> (r: Option<usize>)
    ensures
        r == inferred_samples(shape@),
{
    if shape.len() >= 2 && shape[1] > 0 {
        Some(shape[1] as usize)
    } else if shape.len() == 1 && shape[0] > 0 {
        Some(shape[0] as usize)
    } else {
        None
    }
}

/// The indices into `inputs` of the inputs of one element type, in order.
fn indices_of(inputs: &Vec<TensorInput>, element: ElementType) -> (r: Vec<usize>)
    ensures
        r@.len() == inputs_of(inputs@, element).len(),
        forall|k: int|
            0 <= k < r@.len() ==> {
                &&& (#[trigger] r@[k]) < inputs@.len()
                &&& inputs@[r@[k] as int] == inputs_of(inputs@, element)[k]
            },
{
    let mut r: Vec<usize> = Vec::new();
    let mut i: usize = 0;
    proof {
        reveal(Seq::filter);
    }
    while i < inputs.len()
        invariant
            i <= inputs.len(),
            r@.len() == inputs_of(inputs@.take(i as int), element).len(),
            forall|k: int|
                0 <= k < r@.len() ==> {
                    &&& (#[trigger] r@[k]) < inputs@.len()
                    &&& inputs@[r@[k] as int] == inputs_of(inputs@.take(i as int), element)[k]
                },
        decreases inputs.len() - i,
    {
        proof {
            reveal(Seq::filter);
            assert(inputs@.take(i + 1).drop_last() =~= inputs@.take(i as int));
        }
        if inputs[i].element == element {
            r.push(i);
        }
        i = i + 1;
    }
    assert(inputs@.take(i as int) =~= inputs@);
    r
}

/// Works out which input takes what: the first float input of rank two at most takes the audio,
/// the other float inputs carry state, and the first integer input takes the sample rate.
pub fn infer_input_layout(inputs: &Vec<TensorInput>) -> (r: Result<VadInputLayout, String>)
    ensures
        match r {
            Ok(layout) => layout.is_layout_of(inputs@),
            Err(e) => {
                &&& inputs_of(inputs@, ElementType::Float32).len() == 0
                &&& e@ == "VAD model has no float32 input tensor"@
            },
        },
{
    let floats = indices_of(inputs, ElementType::Float32);
    let ints = indices_of(inputs, ElementType::Int64);
    let ghost all = inputs_of(inputs@, ElementType::Float32);
    if floats.len() == 0 {
        return Err("VAD model has no float32 input tensor".to_string());
    }
    let mut audio: usize = 0;
    let mut scan: usize = 0;
    let mut found = false;
    while scan < floats.len() && !found
        invariant
            scan <= floats.len(),
            floats@.len() == all.len(),
            forall|k: int|
                0 <= k < floats@.len() ==> {
                    &&& (#[trigger] floats@[k]) < inputs@.len()
                    &&& inputs@[floats@[k] as int] == all[k]
                },
            !found ==> audio == 0 && first_flat(all, 0) == first_flat(all, scan as int),
            found ==> audio < floats.len() && first_flat(all, 0) == Some(audio as int),
        decreases floats.len() - scan,
    {
        if inputs[floats[scan]].shape.len() <= 2 {
            audio = scan;
            found = true;
        }
        scan = scan + 1;
    }
    assert(audio == audio_index(all));
    let ghost states = all.remove(audio as int);
    let mut state_inputs: Vec<StateInputSpec> = Vec::new();
    let mut i: usize = 0;
    while i < floats.len()
        invariant
            i <= floats.len(),
            audio < floats.len(),
            floats@.len() == all.len(),
            states == all.remove(audio as int),
            forall|k: int|
                0 <= k < floats@.len() ==> {
                    &&& (#[trigger] floats@[k]) < inputs@.len()
                    &&& inputs@[floats@[k] as int] == all[k]
                },
            state_inputs@.len() == if i <= audio {
                i as int
            } else {
                i - 1
            },
            forall|k: int|
                0 <= k < state_inputs@.len() ==> (#[trigger] state_inputs@[k]).describes(states[k]),
        decreases floats.len() - i,
    {
        if i != audio {
            let input = &inputs[floats[i]];
            let shape = normalize_shape(&input.shape);
            let len: usize = count_elements(&shape);
            state_inputs.push(StateInputSpec { name: input.name.clone(), shape, len });
        }
        i = i + 1;
    }
    let sample_rate_input: Option<String> = if ints.len() > 0 {
        Some(inputs[ints[0]].name.clone())
    } else {
        None
    };
    Ok(
        VadInputLayout {
            audio_input: inputs[floats[audio]].name.clone(),
            audio_input_samples: declared_samples(&inputs[floats[audio]].shape),
            state_inputs,
            sample_rate_input,
        },
    )
}

} // verus!
