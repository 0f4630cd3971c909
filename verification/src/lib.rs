use vstd::prelude::*;

pub mod text;
pub mod ticker;
pub mod quote;
pub mod book;
pub mod dispatch;
pub mod generator;
pub mod clock;
pub mod network;
pub mod client;
pub mod server;

verus! {
}
