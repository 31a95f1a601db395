//! Which environments an agent keeps, and in what form it stores them.

use vstd::prelude::*;

use crate::env::environment::{EnvModel, Environment};
use crate::env::mem_backend::simple_backend::SimpleBackend;
use crate::env::mem_env::MemEnv;
use crate::env::raw_overlay::RawOverlay;

verus! {

pub trait EnvPolicy: Default {
    /// The environments that are built.
    type BaseEnv: Environment + Default;
    /// The form in which a base environment is stored.
    type StoredEnv: Environment;
    /// The environments that stand over a base one.
    type Overlay: Environment;

    /// A new, empty base environment (what `BaseEnv::default` gives, with
    /// that stated).
    fn new_base_env(&mut self) -> (res: Self::BaseEnv)
        ensures
            res.wf(),
            res.model() == EnvModel::empty(),
    ;

    /// Stores `base`: the stored environment presents what `base` holds.
    fn new_stored_env(&mut self, base: Self::BaseEnv) -> (res: Box<Self::StoredEnv>)
        ensures
            res.model() == base.model(),
            res.wf() == base.wf(),
    ;
}

/// Environments in memory, stored behind an overlay that owns them.
#[derive(Default)]
pub struct SimplePolicy {}

impl EnvPolicy for SimplePolicy {
    type BaseEnv = MemEnv<SimpleBackend>;
    type StoredEnv = RawOverlay<MemEnv<SimpleBackend>>;
    type Overlay = RawOverlay<MemEnv<SimpleBackend>>;

    fn new_base_env(&mut self) -> (res: Self::BaseEnv) {
        MemEnv::new()
    }

    fn new_stored_env(&mut self, base: Self::BaseEnv) -> (res: Box<Self::StoredEnv>) {
        Box::new(RawOverlay::new(base))
    }
}

} // verus!
