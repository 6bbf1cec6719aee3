//! Session control for a crawling engine: handle tables for detached tasks,
//! the choice of execution mode for a run, the stop and unsubscribe protocol,
//! and the conversion of engine results into page records.

pub mod capacity;
mod engine;
pub mod handles;
pub mod page;
pub mod website;

pub use handles::HandleTable;
pub use page::{new_page, page_title, NPage, RawPage};
pub use website::{Cron, DetachedTasks, EngineCall, ExecutionMode, NWebsite, RunPlan, RunStart, StopOutcome, Website};
