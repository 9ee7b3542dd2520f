pub mod command;
pub mod response;
pub mod runtime_info;
pub mod topic_stats;
