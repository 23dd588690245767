use crate::operators::ExpmapAction;
use vstd::prelude::*;

verus! {

/// A chord of the experimental map: `actions` when all `keys` are pressed
/// within `timeout_ms`.
#[derive(Debug)]
pub struct Simkey {
    pub keys: Vec<u16>,
    pub actions: Vec<ExpmapAction>,
    pub timeout_ms: u64,
}

/// A double tap of the experimental map: `actions` when the key is tapped
/// twice within `timeout_ms`.
#[derive(Debug)]
pub struct DoubleTap {
    pub actions: Vec<ExpmapAction>,
    pub timeout_ms: u64,
}

/// An operator of the experimental map that is keyed by one key.
#[derive(Debug)]
pub enum ExpmapOperator {
    DoubleTap(DoubleTap),
}

/// One block of the experimental map.
#[derive(Debug)]
pub struct Expmap {
    pub name: String,
    pub chords: Vec<Simkey>,
    pub remap: Vec<(u16, ExpmapOperator)>,
}

/// Every chord of the experimental map has at least two keys.
pub open spec fn expmaps_wf(expmaps: Seq<Expmap>) -> bool {
    forall|i: int, j: int|
        0 <= i < expmaps.len() && 0 <= j < expmaps[i].chords@.len() ==> (#[trigger] expmaps[i].chords@[j]).keys@.len()
            >= 2
}

} // verus!
