//! A wildcard DNS responder core: recovers the IPv4 address embedded in a
//! queried name and synthesises the matching `A` answer.

pub mod address;
pub mod answer;
pub mod authority;
pub mod labels;
pub mod laws;
pub mod octet;
pub mod options;
pub mod outcome;
pub mod recover;
pub mod text;
pub mod toolkit;
