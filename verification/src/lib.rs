//! Verified core of the Cards note-taking application.
pub mod text;
pub mod utf8_facts;
pub mod ref_parser;
pub mod checkbox;
pub mod settings;
pub mod theme;
pub mod card_icon;
pub mod workspace;
pub mod text_document;
pub mod markdown;
pub mod markdown_parser;
pub mod boards;
pub mod workspace_modal;
pub mod board_store;
pub mod math_renderer;
