//! Verified core of an exam-sheet scanner: the text descriptions it logs,
//! the QR-code checks, the histogram analysis of answer boxes and the
//! layout of the histogram trace image.

pub mod text;
pub mod geometry;
pub mod qr;
pub mod image;
pub mod histogram;
pub mod hist_series;
pub mod boxes;
