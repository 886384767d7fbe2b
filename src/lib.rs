use vstd::prelude::*;

pub mod chat;
pub mod message;

verus! {

} // verus!
