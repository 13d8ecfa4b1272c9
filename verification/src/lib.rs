pub mod apart_laws;
pub mod api;
pub mod clock;
pub mod codec;
pub mod collector;
pub mod collector_laws;
pub mod commands;
pub mod config;
pub mod demand;
pub mod driver;
pub mod effect_laws;
pub mod effects;
pub mod fuzzing;
pub mod ids;
pub mod lifecycle;
pub mod limits;
pub mod monitor;
pub mod name_laws;
pub mod peers;
pub mod planner;
pub mod reconfigure;
pub mod report_laws;
pub mod run_laws;
pub mod runtime;
pub mod scheduler;
pub mod service_laws;
pub mod slice;
pub mod state;
pub mod status;
pub mod subscribers;
pub mod table;
pub mod text;
pub mod work_laws;
