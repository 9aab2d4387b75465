pub mod about;
pub mod add_link;
pub mod add_topic;
pub mod link_viewport;
pub mod topic_viewport;
