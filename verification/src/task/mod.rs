//! What runs beside the interrupt handlers.

pub mod keyboard;
