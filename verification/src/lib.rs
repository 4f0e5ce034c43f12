//! A line-oriented processing pipeline: a producer feeds text lines through a
//! bounded queue to a pool of workers, each worker counts occurrences of a
//! fixed target character in the lines it receives, and an aggregator sums
//! the workers' partial results into one total. The aggregate is proved to
//! equal the dataset's true count, independent of the worker count and of
//! which worker received which line.

pub mod channel;
pub mod count;
pub mod laws;
pub mod lines;
pub mod pipeline;
pub mod queue;
