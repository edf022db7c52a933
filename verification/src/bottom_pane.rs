//! The composer area at the bottom of the screen and its popups.

pub mod command_popup;
pub mod footer;
pub mod list_selection_view;
pub mod prompt_args;
pub mod prompt_footer;
pub mod queued_user_messages;
pub mod scroll_state;
pub mod word_boundary;
