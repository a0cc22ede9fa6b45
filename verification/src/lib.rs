//! The interaction core of a terminal browser for the stash list of a git
//! repository.
//!
//! The library holds the application state and decides what every key does.
//! It never runs the tool and never draws: a step that needs the tool hands a
//! [`events::Command`] to the caller, who runs it and gives the outcome back,
//! and the screen is drawn by the caller from the state and the rules of
//! [`ui`].
//!
//! - [`app`]: the state, its filtered view, selection and scrolling.
//! - [`events`]: the keys of each mode and the outcomes of the commands.
//! - [`git`]: stash records, read from what the tool prints.
//! - [`text`]: searching, trimming and line splitting on characters.
//! - [`ui`]: the rules by which the screen shows the state.

pub mod app;
pub mod events;
pub mod git;
pub mod text;
pub mod ui;
