pub mod aggregate;
pub mod bar;
pub mod classifier;
pub mod config;
pub mod daytrading;
pub mod driver;
pub mod live;
pub mod market;
pub mod regime;
pub mod report;
pub mod resistance;
pub mod simulator;
pub mod window;
