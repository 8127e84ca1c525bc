pub mod ast;
pub mod code_action;
pub mod completion;
pub mod engine;
pub mod hover;
pub mod import_completion;
pub mod items;
pub mod line_index;
pub mod locator;
pub mod run;
pub mod search;
pub mod visibility;
