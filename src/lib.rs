pub mod indicator;
pub mod rules;
pub mod walker;
pub mod report;
pub mod laws;
pub mod combine;
pub mod menu;
pub mod cli;
