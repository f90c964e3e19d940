//! The engine of a concurrent HTTP path enumerator: given a base URL and a
//! wordlist, it finds the paths under the URL that the target answers with
//! an accepted status.
//!
//! The engine decides and never does I/O. A run goes through it like this:
//! the options become a [`config::TargetConfig`]; the lines of the wordlist
//! become candidates ([`wordlist`]); one request for a path that cannot
//! exist shows whether the target answers every path alike ([`baseline`]);
//! and if the run may go on, a [`dispatch::Dispatcher`] takes the candidates
//! through their probes, never with more of them in flight than the
//! configuration allows. The caller makes the requests that the engine hands
//! out and prints the lines that it writes ([`report`]).
//!
//! What holds of every run is stated and proved in [`guarantees`].

pub mod baseline;
pub mod config;
pub mod dispatch;
pub mod error;
pub mod guarantees;
pub mod report;
pub mod request;
pub mod status;
pub mod text;
pub mod wordlist;
