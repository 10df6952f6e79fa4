use vstd::prelude::*;

verus! {

/// Categorises the mutation commands a client can issue against the body
/// sequence. Index values are positional offsets into the body sequence at
/// the moment the command is applied, not stable identifiers.
#[derive(Clone, Copy, PartialEq, Eq, Structural, Debug)]
pub enum InputEvent {
    Add,
    Remove(usize),
    Update(usize),
    Meta,
}

} // verus!
