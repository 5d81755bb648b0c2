//! Terminal slide decks: the deck format, its markdown model, the navigation
//! rules and the small deterministic helpers that the renderer relies on.

pub mod util;
pub mod text;
pub mod markdown;
pub mod background;
pub mod clock;
pub mod transition;
pub mod entrance;
pub mod theme;
pub mod bigtext;
pub mod glyphs;
pub mod parse;
pub mod input;
pub mod sync;
pub mod session;
pub mod layout;
pub mod image;
pub mod graphics;
pub mod highlight;
