pub mod kind;
pub mod queue;
pub mod mainloop;
pub mod laws;

pub use kind::{CbId, CbKind, MainLoopError};
pub use mainloop::{call_internal, terminate, MainLoop, Registry, Step};
pub use queue::{Pending, TimerQueue};
