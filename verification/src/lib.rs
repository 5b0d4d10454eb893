//! Core of a GraphQL endpoint testing tool: resolution of the endpoint to
//! target from a configuration of named environments, and a leveled,
//! buffered logger that records per-test-case diagnostics.
//!
//! The surrounding command-line program performs the file and network I/O
//! and hands this crate plain values; everything here is pure computation.

pub mod config;
pub mod config_doc;
pub mod strutil;
pub mod test_logging;

use vstd::prelude::*;
use vstd::string::*;

use crate::test_logging::{LogEntryModel, LogLevel, TestLogger, TestStatus};

verus! {

/// The diagnostic record of one attempt to reach the server of a test run:
/// a fresh logger holding the one message the attempt warrants, and the
/// run's verdict. A reachable server leaves the run skipped (no test is
/// executed yet beyond the connection); an unreachable one fails it.
pub fn connection_report(connected: bool, address: &str) -> (logger: TestLogger)
    ensures
        connected ==> logger@.entries == seq![
            (LogEntryModel {
                level: LogLevel::Info,
                message: "Connected to server at "@ + address@,
            }),
        ] && logger@.verdict == Some(TestStatus::Skipped),
        !connected ==> logger@.entries == seq![
            (LogEntryModel {
                level: LogLevel::Error,
                message: "Could not connect to server at "@ + address@,
            }),
        ] && logger@.verdict == Some(TestStatus::Failure),
{
    let mut logger = TestLogger::new();
    if connected {
        let mut message = String::from_str("Connected to server at ");
        message.append(address);
        logger.info(message.as_str());
        logger.mark_skipped();
        proof {
            assert(Seq::<LogEntryModel>::empty().push(
                LogEntryModel {
                    level: LogLevel::Info,
                    message: "Connected to server at "@ + address@,
                },
            ) =~= seq![
                (LogEntryModel {
                    level: LogLevel::Info,
                    message: "Connected to server at "@ + address@,
                }),
            ]);
        }
    } else {
        let mut message = String::from_str("Could not connect to server at ");
        message.append(address);
        logger.error(message.as_str());
        logger.mark_fail();
        proof {
            assert(Seq::<LogEntryModel>::empty().push(
                LogEntryModel {
                    level: LogLevel::Error,
                    message: "Could not connect to server at "@ + address@,
                },
            ) =~= seq![
                (LogEntryModel {
                    level: LogLevel::Error,
                    message: "Could not connect to server at "@ + address@,
                }),
            ]);
        }
    }
    logger
}

} // verus!
