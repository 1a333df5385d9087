//! Writing log lines through an interchangeable writer.

use vstd::prelude::*;
use std::io::Write;

verus! {

/// Writes one line to standard output.
///
/// Trusted: `writeln!` on `std::io::stdout()`; a failure to write is
/// ignored. Nothing is claimed of what reaches the terminal.
#[verifier::external_body]
fn print_line(message: &str) {
    let _ = writeln!(std::io::stdout(), "{}", message);
}

/// Something that log lines can be written to.
pub trait LogWriter {
    fn write_log(&self, message: &str);
}

/// Writes log lines to standard output.
pub struct ConsoleWriter;

impl LogWriter for ConsoleWriter {
    fn write_log(&self, message: &str) {
        print_line(message);
    }
}

/// Logs through its writer.
pub struct Logger<T: LogWriter> {
    pub writer: T,
}

impl<T: LogWriter> Logger<T> {
    /// Writes a log line.
    pub fn log(&self, message: &str) {
        self.writer.write_log(message);
    }
}

/// Logs a greeting through a logger and straight through its writer.
pub fn bla() {
    let l = Logger { writer: ConsoleWriter };
    l.log("hi");
    l.writer.write_log("hi");
}

} // verus!
