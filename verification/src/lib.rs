//! Core of a financial time-series chart: normalizes raw series data into
//! typed samples, computes axis domains, maps data space to pixel space, and
//! assembles the draw-command list for one render pass.

pub mod date;
pub mod document;
pub mod num;
pub mod render;
pub mod domain;
pub mod mapper;
pub mod series;
pub mod state;
