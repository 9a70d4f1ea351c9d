//! A tracker of recurring activities: which of them fall on a calendar day,
//! which were completed on it, and which days were perfect.

pub mod activities_manager;
pub mod app;
pub mod handler;
pub mod init;
pub mod text;
pub mod time_utils;
