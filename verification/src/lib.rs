//! Frame pacing and focus primitives with machine-checked contracts.
//!
//! The frame-pacing part is the math and policy layer for a render loop. It does not know about
//! graphics APIs, browser compositors, windows, threads, or timers. A host platform feeds it
//! display timing, rough phase estimates, frame demand, and observed timings. The scheduler
//! returns the next thing the app should do and when it should wake again.
//!
//! The model is split around surface acquisition:
//!
//! - [`pacer::Action::StartPreSurfaceWork`] starts work that can happen before acquiring a drawable
//!   or swapchain image, such as animation sampling, layout, scene preparation, culling, and render
//!   graph building.
//! - [`pacer::Action::AcquireSurface`] is emitted only when the scheduler wants the host to acquire
//!   the scarce surface resource and perform surface-bound work, such as final encoding, blitting,
//!   or submitting.
//! - [`plan::Presentation`] tells the host whether to present as soon as work is done or request a
//!   later presentation time/minimum duration when the platform can express one.
//!
//! The focus part reads a box tree: [`navigation`] walks it in filtered depth-first order,
//! [`focus`] collects the nodes of a scope that can take the focus, and [`responder`] turns query
//! results into hits.
//!
//! Contracts are stated over mathematical models. A type with private fields has a view (such as
//! [`display::DisplayModel`] or [`pacer::PacerModel`]) whose spec methods say what every operation
//! returns and how it changes the state. Public proof functions named `law_*` state what follows
//! for the library as a whole.

pub mod time;

pub mod demand;

pub mod display;

pub mod cadence;

pub mod plan;

pub mod begin_frame;

pub mod compositor;

pub mod pacer;

pub mod tree;

pub mod navigation;

pub mod responder;

pub mod focus;
