//! Names of the keys and channels of the backing store.

use vstd::prelude::*;

verus! {

pub const REPUTATION_QUEUE_BACKLOG: &'static str = "reputation_queue";

pub const REPUTATION_QUEUE_PUBSUB: &'static str = "reputation_poll_queue";

pub const REPUTATION_QUEUE_LAST_RUN_TIME: &'static str = "reputation_poll_last_run_time";

pub const REPUTATION_QUEUE_LAST_DATA: &'static str = "reputation_poll_last_data";

pub const REPORTS_QUEUE_PUBSUB: &'static str = "reports_poll_queue";

pub const REPORTS_POLL_LAST_RUN_TIME: &'static str = "reports_poll_last_run_time";

pub const REPORTS_POLL_LAST_DATA: &'static str = "reports_poll_last_data";

pub const PROGRAMS: &'static str = "programs";

pub const USER_INFORMATIVE_REPORTS_QUEUE_PUBSUB: &'static str = "user_informative_reports_queue";

pub const USER_THANKS_DATA_POLL_LAST_DATA: &'static str = "user_program_thanks_data_poll_last_data";

} // verus!
