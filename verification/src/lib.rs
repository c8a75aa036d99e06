//! A caching, policy-enforcing front for a Debian package archive: the
//! request pipeline — cache probe, archive policy, geo policy, upstream
//! fetch, signature verification, cache admission, audit — with each
//! decision specified and proved.  Listening sockets, the upstream HTTP
//! client, the geo database file and the external signature verifier
//! live outside the library and hand their outcomes in as plain values.

pub mod audit;
pub mod cache;
pub mod clock;
pub mod geo;
pub mod gpg;
pub mod hashes;
pub mod location;
pub mod paths;
pub mod policy;
pub mod router;
pub mod strutil;
