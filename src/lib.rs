//! A collection of small verified components: a worker-pool coordinator with its
//! message protocol, a minimal HTTP request router, and a set of everyday helpers
//! (text search, geometry, state machines, small numeric routines).
pub mod thread_pool;
pub mod http;
pub mod basics;
pub mod rectangles;
pub mod users;
pub mod coins;
pub mod ownership;
pub mod lifetimes;
pub mod guess;
pub mod adder;
pub mod art;
pub mod restaurant;
pub mod minigrep;
pub mod limit_tracker;
pub mod smart_pointers;
pub mod blog;
pub mod post;
pub mod aggregator;
pub mod generics;
pub mod advanced;
pub mod gui;
pub mod guessing_game;
pub mod closures;
pub mod collections;
