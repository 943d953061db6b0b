//! The UI engine handle: it owns the virtual coordinate space and drives the
//! layout, draw and hit-test passes over a screen's widget tree.
use vstd::prelude::*;

verus! {

/// The UI engine. It carries no state of its own.
#[derive(Clone, Copy, Debug, Default, PartialEq, Eq, Structural)]
pub struct Ui;

impl Ui {
    /// A UI engine.
    pub fn new() -> (ui: Ui)
        ensures
            ui == Ui,
    {
        Ui
    }
}

} // verus!
