//! The rules of a rice showcase: how visitors submit their projects, and how a voting among the
//! participants of a huddle is run from Slack.
//!
//! - [`session`], [`leaderboard`], [`rules`] and [`history`]: the voting, its outcome, what each
//!   command does, and what holds over any run of commands;
//! - [`mention`]: reading whom a command mentions;
//! - [`signin`]: the way from a first visit to the page of one's projects;
//! - [`submit`], [`submission`] and [`ledger`]: the course of a submission, its announcement, and
//!   the file of those who have submitted;
//! - [`slack`], [`hackatime`] and [`form`]: what is sent to and received from outside;
//! - [`messages`] and [`pages`]: the fixed texts;
//! - [`text`]: operations on text, stated over its characters.

pub mod form;
pub mod hackatime;
pub mod history;
pub mod leaderboard;
pub mod ledger;
pub mod mention;
pub mod messages;
pub mod pages;
pub mod rules;
pub mod session;
pub mod signin;
pub mod slack;
pub mod submission;
pub mod submit;
pub mod text;
