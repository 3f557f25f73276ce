//! Presentation core of a terminal chat client: rectangle arithmetic, styled
//! cell grids, a double-buffered diffing renderer, the chat scrollback, input
//! line and tab strip widgets, and the session state that routes chat events.

pub mod bound;
pub mod buffer;
pub mod chatbuf;
pub mod controller;
pub mod error;
pub mod escape;
pub mod event;
pub mod input;
pub mod markup;
pub mod model;
pub mod session;
pub mod style;
pub mod tabline;
pub mod terminal;
pub mod text;
pub mod widget;

pub use bound::Bound;
pub use buffer::{Buffer, Cell};
pub use chatbuf::ChatBuf;
pub use error::Error;
pub use event::{colorize, Event};
pub use input::Input;
pub use session::UI;
pub use style::{Color, Modifier, Style};
pub use tabline::{Tab, TabLine};
pub use terminal::Terminal;
pub use widget::Widget;
