//! Whether a station's supervisor is at work.

use vstd::prelude::*;

verus! {

#[derive(Debug, Clone, Copy, PartialEq, Eq, Structural)]
pub enum ScraperStatus {
    Running,
    Stopped,
}

} // verus!
