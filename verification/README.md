# Understory

Frame pacing and focus primitives for a UI runtime, written in Verus. The functions of the library
have contracts, and Verus proves the code against them. What a host's `FocusPropsLookup` answers is
left open: focus spaces are exact for whatever it says.

- `src/time.rs`: timestamps and durations in whole nanoseconds, with saturating arithmetic.
- `src/demand.rs`: why a frame is requested, and which policy the causes add up to.
- `src/display.rs`: what a display can do, and the intervals chosen for it.
- `src/cadence.rs`: frame-rate preferences, cadences, and which ticks are delivered.
- `src/plan.rs`: the stateless pacing decision for one frame.
- `src/begin_frame.rs`, `src/compositor.rs`: the begin-frame and compositor-frame lifecycles.
- `src/pacer.rs`: the stateful frame pacer.
- `src/tree.rs`: a box tree and its depth-first order.
- `src/navigation.rs`, `src/focus.rs`, `src/responder.rs`: filtered traversal, focus spaces, and
  responder hits over such a tree.

State machines and types with private fields have a model as their view. The model's spec methods
say what each operation returns and how it changes the state; proof functions named `law_*` say what
holds across operations.

The library calls no outside code. It carries rectangles of `kurbo` along without looking into them.

`tests/` runs the library on concrete values. `app/` is ordinary Rust around it: frame rates in
frames per second, demand as a `bitflags` set, and adapters that read live box trees of
`understory_box_tree`, which has to be provided beside this crate.
