//! Capture and filtering of diagnostic events: a shared log that keeps the
//! events of an application's own namespaces at or above a severity, and a
//! per-reader choice of the levels to show.

pub mod collector;
pub mod fields;
pub mod filter;
pub mod level;
pub mod log;
pub mod record;
pub mod text;
pub mod ui;

pub use collector::EventCollector;
pub use fields::Fields;
pub use filter::LogsState;
pub use level::TracerLevel;
pub use log::EventLog;
pub use record::{CollectedEvent, Timestamp};
pub use ui::LogUi;
