pub mod consumer;
pub mod multi_threaded_scanner;
pub mod scanner;
