pub mod keys;
pub mod osc;
pub mod popup;
pub mod buffer_tracker;
pub mod integration;
pub mod event_loop;
