//! The verified core of a signage player's GStreamer renderer.
//!
//! - [`bridge`]: the calls that the rendered page makes to the player.
//! - [`server`]: what the embedded web server answers, with [`query`] for its
//!   URLs and [`range`] for requests for parts of files.
//! - [`wpe`]: what the renderer shows, and what it does about the page's calls.
//! - [`wayland`]: how the surface that everything is drawn into comes about.
//! - [`text`], [`split`], [`search`], [`decimal`], [`encoding`]: the text
//!   operations that all of these are written in.
//!
//! What is proved of these stands beside them where it is about one of them
//! alone, and otherwise in [`text_laws`], [`request_laws`], [`call_laws`],
//! [`bridge_laws`], [`serving_laws`], [`renderer_laws`] and [`server_laws`].

pub mod bridge;
pub mod bridge_laws;
pub mod call_laws;
pub mod decimal;
pub mod encoding;
pub mod query;
pub mod range;
pub mod renderer_laws;
pub mod request_laws;
pub mod search;
pub mod server;
pub mod server_laws;
pub mod serving_laws;
pub mod split;
pub mod text;
pub mod text_laws;
pub mod wayland;
pub mod wpe;
