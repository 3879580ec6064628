//! Rotation of a recurring duty slot through the apartments of a building,
//! and the year calendar that assigns each day to an apartment.

pub mod countdown;
pub mod config;
pub mod text;
pub mod position;
pub mod building;
pub mod date;
pub mod calendar;
pub mod cycle;
pub mod date_text;
