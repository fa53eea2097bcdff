//! Transform engine for thermal image sequences: the pipeline state machine,
//! view geometry, the index plans of the wavelet engine, the wavelet scale
//! cache and the on-disk container format.

pub mod codec;
pub mod cube;
pub mod cwt;
pub mod geometry;
pub mod knots;
pub mod slice;
pub mod spectral;
pub mod state;
pub mod text;
pub mod view;
pub mod wavelet;
