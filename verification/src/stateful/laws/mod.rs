//! Laws of the calls: what the results of the functions of this module must satisfy, and
//! how the results of several calls relate.
//!
//! Each law speaks of calls by their contracts (`call_ensures`), and states in terms of the
//! arguments and results alone what follows. A call that changes a value is given by the
//! mutable reference that it takes: the value before the call is `*old(x)`, and the value
//! after it `*final(x)`.

pub mod actor;
pub mod pending;
pub mod rebuild;
pub mod request;
pub mod startup;
