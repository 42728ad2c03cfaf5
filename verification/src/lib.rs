//! Parts of an ECMAScript engine, with proofs.
//!
//! - Objects that carry native data of an embedder, and weak references to
//!   them: [`embedder_object`], [`weak_ref`].
//! - Regular expressions, from their creation to the results of executing
//!   them: [`regexp`].
//! - What the heap holds and what its garbage collector asks of that:
//!   [`heap`], [`strings`], [`gc`], [`collection`].
//! - Single-worker access to linear memory: [`atomics`], [`memcpy`].
//! - What callers can rely on, over one call or several: [`laws`].
//!
//! Everything works on an [`heap::Agent`], which owns the heap. Values are
//! handles into it: [`values`].

pub mod atomics;
pub mod collection;
pub mod embedder_object;
pub mod gc;
pub mod heap;
pub mod laws;
pub mod memcpy;
pub mod regexp;
pub mod strings;
pub mod utf16;
pub mod values;
pub mod weak_ref;
pub mod wtf8_buf;
