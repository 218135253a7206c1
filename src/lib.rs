// A tailing log shipper: records read from the system log are turned into
// JSON documents and delivered, one line each, to a remote collector, at
// least once, resuming from a persisted checkpoint.
//
// document    record transformation and the wire line
// checkpoint  the checkpoint file's text and the debounced store
// seek        where reading starts when there is no checkpoint
// queue       the bounded delivery queue
// shipper     the network loop's decisions
// supervisor  the worker's restart decisions
// pipeline    the reading loop's decisions
// config      settings and their defaults
// text        character-level string operations

use vstd::prelude::*;

pub mod checkpoint;
pub mod config;
pub mod document;
pub mod pipeline;
pub mod queue;
pub mod seek;
pub mod shipper;
pub mod supervisor;
pub mod text;

verus! {

} // verus!
