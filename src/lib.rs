//! Watches an exchange rate: keeps the history of observed rates and decides,
//! from that history, when a new observation is worth a notification.

pub mod email;
pub mod exchange;
pub mod love_note;
pub mod monitor;
pub mod plot;
pub mod rate;
pub mod storage;
pub mod text;
