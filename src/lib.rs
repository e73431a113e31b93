//! A line-editing engine for raw-mode terminals: an editable character buffer
//! with a cursor and word-wise jumps, a command history that keeps the draft
//! being typed while older entries are browsed, and the bytes that repaint the
//! prompt line.
pub mod history;
pub mod input;
pub mod render;

pub use history::History;
pub use input::Input;

use vstd::prelude::*;

verus! {

/// Implemented by types that keep a diagnostic log of the events applied to them.
pub trait DebugLog<E> {
    fn log(&mut self, event: &E);

    fn dl_rfd(&self) -> i32;
}

} // verus!
