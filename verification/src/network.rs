//! A network read by the engine: its name and the shape of each input.
use vstd::prelude::*;
use crate::blob::{dims_from_raw, spec_dims_from_raw, MAX_RANK};

verus! {

/// What is known of one input of a network: its extents.
#[derive(Clone)]
pub struct InputInfo {
    pub dims: Vec<usize>,
}

/// The name and extents of an input.
pub open spec fn input_view(entry: (String, InputInfo)) -> (Seq<char>, Seq<usize>) {
    (entry.0@, entry.1.dims@)
}

/// The abstract content of a network: its name and, for each input, its
/// name and extents.
pub struct NetworkView {
    pub name: Seq<char>,
    pub inputs: Seq<(Seq<char>, Seq<usize>)>,
}

/// A network: its name and the information on each of its inputs, no
/// input name occurring twice.
pub struct Network {
    name: String,
    inputs_info: Vec<(String, InputInfo)>,
}

impl View for Network {
    type V = NetworkView;

    closed spec fn view(&self) -> NetworkView {
        NetworkView {
            name: self.name@,
            inputs: self.inputs_info@.map_values(|e: (String, InputInfo)| input_view(e)),
        }
    }
}

/// No two inputs share a name.
pub open spec fn names_distinct(inputs: Seq<(Seq<char>, Seq<usize>)>) -> bool {
    forall|p: int, q: int| 0 <= p < q < inputs.len() ==> #[trigger] inputs[p].0 != #[trigger] inputs[q].0
}

impl Network {
    #[verifier::type_invariant]
    closed spec fn inputs_distinct(self) -> bool {
        names_distinct(self@.inputs)
    }

    /// A network named `name` with the single input `input_name` of extents
    /// `dims`.
    pub fn new(name: String, input_name: String, dims: Vec<usize>) -> (r: Network)
        ensures
            r@.name == name@,
            r@.inputs == seq![(input_name@, dims@)],
    {
        let ghost name_view = name@;
        let ghost input_view_expected = (input_name@, dims@);
        let mut inputs_info: Vec<(String, InputInfo)> = Vec::new();
        inputs_info.push((input_name, InputInfo { dims }));
        let r = Network { name, inputs_info };
        assert(r@.inputs =~= seq![input_view_expected]);
        r
    }

    /// The network that the engine describes by the list of its names, the
    /// list of its input names and the dimension record of its first input:
    /// it is named by the first name and has the first input name as its
    /// only input.
    pub fn from_records(names: Vec<String>, input_names: Vec<String>, ranks: u64, raw_dims: &[u64; 8]) -> (r: Network)
        requires
            names@.len() >= 1,
            input_names@.len() >= 1,
            ranks <= MAX_RANK,
        ensures
            r@.name == names@[0]@,
            r@.inputs == seq![(input_names@[0]@, spec_dims_from_raw(ranks as nat, raw_dims@))],
            r@.inputs.len() == 1,
            r@.inputs[0].0 == input_names@[0]@,
            r@.inputs[0].1.len() == ranks,
            forall|i: int| 0 <= i < ranks ==> #[trigger] r@.inputs[0].1[i] == raw_dims@[i] as usize,
    {
        let dims = dims_from_raw(ranks, raw_dims);
        let name = names[0].clone();
        let input_name = input_names[0].clone();
        Network::new(name, input_name, dims)
    }

    /// The information on the inputs of the network, by input name.
    pub fn get_inputs_info(self) -> (r: Vec<(String, InputInfo)>)
        ensures
            r@.map_values(|e: (String, InputInfo)| input_view(e)) == self@.inputs,
            names_distinct(self@.inputs),
            r@.len() == self@.inputs.len(),
            forall|i: int| 0 <= i < r@.len() ==> #[trigger] r@[i].0@ == self@.inputs[i].0 && r@[i].1.dims@ == self@.inputs[i].1,
    {
        proof {
            use_type_invariant(&self);
        }
        self.inputs_info
    }

    /// The name of the network.
    pub fn get_name(self) -> (r: String)
        ensures
            r@ == self@.name,
    {
        self.name
    }
}

} // verus!
