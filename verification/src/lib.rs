//! A small modal text editor for the terminal: the text buffer, the cursor
//! and the window onto the text, the keys and what they do, and the frames
//! that show the state. Reading keys and writing frames is left to the
//! program around the library.

pub mod buffer;
pub mod cursor;
pub mod editor;
pub mod encoding;
pub mod input;
pub mod render;
pub mod text;

use vstd::prelude::*;
use crate::buffer::Buffer;
use crate::editor::{EditorModel, Mode, RunningEditor};
use crate::text::line_count;

verus! {

/// Starts an editor on `content` in a window of `window_size` columns and
/// rows: in normal mode, the cursor at the start of the text, running, and
/// the screen still to be drawn.
pub fn run(content: String, window_size: (usize, usize)) -> (editor: RunningEditor)
    ensures
        editor.buffers.len() == 1,
        editor.cur_buf == 0,
        editor@ == (EditorModel {
            running: true,
            text: content@,
            cursor: (0, 0),
            wanted_col: 0,
            window_size: (window_size.0 as int, window_size.1 as int),
            scroll: (0, 0),
            screen_dirty: true,
            mode: Mode::Normal,
        }),
        editor.wf() <==> line_count(content@) > 0,
        window_size.0 > 0 && window_size.1 > 0 ==> editor@.cursor_visible(),
{
    let buf = Buffer { content };
    let mut editor = RunningEditor::with_buf(buf, window_size);
    editor.running = true;
    editor
}

} // verus!
