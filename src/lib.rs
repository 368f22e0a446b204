pub mod errors;
pub mod processor;
pub mod progress;
pub mod task_queue;
pub mod report;
pub mod text;
pub mod types;
