//! Verified core of the CodeStrux desktop backend: model downloads from
//! HuggingFace, the downloaded-model registry, the local chat server, and
//! the hardware report.

pub mod chat;
pub mod download;
pub mod hardware;
pub mod store;
pub mod text;

use vstd::prelude::*;

use crate::text::{push_str, string_of};

verus! {

pub open spec fn greeting_spec(name: Seq<char>) -> Seq<char> {
    "Hello, "@ + name + "! You've been greeted from Rust!"@
}

/// The greeting answered to the frontend's `greet` command.
pub fn greet(name: &str) -> (g: String)
    ensures
        g@ == greeting_spec(name@),
{
    let mut v: Vec<char> = Vec::new();
    push_str(&mut v, "Hello, ");
    push_str(&mut v, name);
    push_str(&mut v, "! You've been greeted from Rust!");
    string_of(&v)
}

} // verus!
