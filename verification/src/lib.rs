use vstd::prelude::*;

pub mod app;
pub mod config;
pub mod event;
pub mod matcher;
pub mod numbers;
pub mod parse;
pub mod registry;
pub mod template;
pub mod text;

verus! {

/// A four-octet network address, held as its plain octets.
#[derive(Clone, Copy, PartialEq, Eq, Structural, Debug)]
pub struct Ipv4 {
    pub a: u8,
    pub b: u8,
    pub c: u8,
    pub d: u8,
}

/// One successfully extracted log record: an address and a status code.
#[derive(Clone, Copy, PartialEq, Eq, Structural, Debug)]
pub struct Hit {
    pub addr: Ipv4,
    pub status: u64,
}

} // verus!
