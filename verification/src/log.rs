//! The log of the proxy.

use vstd::prelude::*;
use vstd::string::*;

use crate::config::LogConfig;

verus! {

/// Where the log goes.
#[derive(Debug, Clone, Copy, PartialEq, Eq, Structural)]
pub enum LogSink {
    /// To a new file each day.
    DailyFile,
    /// To one file.
    SingleFile,
    /// To the terminal.
    Terminal,
}

/// What is logged, where to and how.
pub struct LogPlan {
    /// What is logged, where the environment does not say.
    pub filter: String,
    pub sink: LogSink,
    pub json: bool,
}

/// Reads off the settings what is logged, where to and how: to files where a directory is set, and
/// to a new one each day where they roll.
pub fn plan_log(config: &LogConfig) -> (r: LogPlan)
    ensures
        r.filter@ == "ccr="@ + config.level@,
        r.sink == (if config.dir@.len() == 0 {
            LogSink::Terminal
        } else if config.rotation {
            LogSink::DailyFile
        } else {
            LogSink::SingleFile
        }),
        r.json == config.json,
{
    let mut filter = String::new();
    filter.append("ccr=");
    filter.append(config.level.as_str());
    assert(filter@ =~= "ccr="@ + config.level@);
    let sink = if config.dir.as_str().is_empty() {
        LogSink::Terminal
    } else if config.rotation {
        LogSink::DailyFile
    } else {
        LogSink::SingleFile
    };
    LogPlan { filter, sink, json: config.json }
}

} // verus!
