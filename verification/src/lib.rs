//! A proxy that runs commands on another host.
//!
//! A client describes a run as a [`protocol::RunRequest`]: a command, its
//! arguments, its environment and its output streams, each a
//! [`params::Param`]. Files of the client travel through an object store.
//! The [`client::Client`] rewrites the request, stages its files and hands
//! it out to be sent; the [`server::Server`] resolves what arrives into a
//! [`protocol::RunRecipe`], brings the files to scratch paths, hands the
//! recipe out to be launched and answers with a
//! [`protocol::RunResponse`].
//!
//! The library decides and never acts: it names each operation on the
//! store, each message to send and each command to launch, and takes the
//! outcome back. What its decisions add up to is stated, and proved, in
//! [`middles::invoke::store`] and [`middles::invoke::laws`].

pub mod assoc;
pub mod client;
pub mod configs;
pub mod error;
pub mod middles;
pub mod params;
pub mod protocol;
pub mod server;
pub mod template;
pub mod text;
