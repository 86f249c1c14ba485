pub mod edit_core;
pub mod ropey_util;
pub mod char_class;
pub mod indent;
pub mod parenthesis;
pub mod text_object;
pub mod buffer;
pub mod event;
pub mod char_width;
pub mod draw;
pub mod compiler;
pub mod numfmt;
pub mod mode;
pub mod strings;
pub mod search;
pub mod search_laws;
pub mod buffer_mode;
pub mod buffer_draw;
pub mod mode_draw;
pub mod buffer_tab;
pub mod snippets;
pub mod paths;
pub mod config;
pub mod completion;
pub mod fuzzy;
pub mod completers;
pub mod rmate;
pub mod test_run;
pub mod lsp;
