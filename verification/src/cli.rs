//! The choice of the port to listen on.

use crate::web::{decimal, decimal_text};
use vstd::prelude::*;

verus! {

/// The lowest port that is chosen when none is given.
pub const PORT_BASE: u16 = 10000;

/// How many ports, from `PORT_BASE` on, are chosen from.
pub const PORT_SPAN: u16 = 1000;

/// Calls `rand::random` for a `u16`. Trusted: nothing is claimed of the
/// number.
#[verifier::external_body]
fn random_u16() -> (r: u16) {
    rand::random::<u16>()
}

/// The port that a random number stands for.
pub fn port_from_random(random: u16) -> (port: u16)
    ensures
        port == random % 1000 + 10000,
        10000 <= port < 11000,
{
    random % PORT_SPAN + PORT_BASE
}

/// A port from 10000 to 10999, chosen at random. Whether it is free is
/// for the caller to try, who asks again where it is not.
pub fn get_rand_port() -> (port: u16)
    ensures
        10000 <= port < 11000,
{
    port_from_random(random_u16())
}

/// The port to listen on, as a text: the one that was given, else the
/// default in decimal digits.
pub fn parse_port(given: Option<String>, default_port: u16) -> (r: String)
    ensures
        r@ == match given {
            Some(p) => p@,
            None => decimal(default_port as nat),
        },
{
    match given {
        Some(p) => p,
        None => decimal_text(default_port as usize),
    }
}

} // verus!
