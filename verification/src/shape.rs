use vstd::prelude::*;

verus! {

/// The dimensions of an SFNN forward pass that the host-side logic reads.
#[derive(Clone, Copy, Debug, PartialEq, Eq, Structural)]
pub struct SfnnForwardShape {
    pub input_size: usize,
    pub ft_size: usize,
    pub l1_hidden: usize,
    pub l2_size: usize,
    pub num_stacks: usize,
    pub l1_skip: bool,
}

} // verus!
