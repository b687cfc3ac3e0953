//! Text input widget: a single editable line with prompt, placeholder and
//! a blinking cursor.

use vstd::prelude::*;
use crate::buffer::Buffer;
use crate::cell::{Cell, Rgb};
use crate::rect::Rect;
use crate::messages::{InputEvent, KeyCode};
use crate::widget::Widget;
use crate::stream::{spec_char_cell, spec_space_cell};
use crate::unicode::{str_chars, chars_to_string};

verus! {

/// Colors and fixed texts of the input widget.
#[derive(Clone, Debug)]
pub struct TextInputConfig {
    /// Text color.
    pub fg: Rgb,
    /// Background color.
    pub bg: Rgb,
    /// Cursor color.
    pub cursor_fg: Rgb,
    /// Placeholder shown while the input is empty.
    pub placeholder: String,
    /// Placeholder color.
    pub placeholder_fg: Rgb,
    /// Prompt prefix.
    pub prompt: String,
    /// Prompt color.
    pub prompt_fg: Rgb,
}

impl Default for TextInputConfig {
    /// White on dark grey, a cyan cursor and a `> ` prompt.
    fn default() -> (r: TextInputConfig)
        ensures
            r.fg == (Rgb { r: 255u8, g: 255u8, b: 255u8 }),
            r.bg == (Rgb { r: 30u8, g: 30u8, b: 30u8 }),
            r.cursor_fg == (Rgb { r: 0u8, g: 255u8, b: 255u8 }),
            r.placeholder@ == Seq::<char>::empty(),
            r.placeholder_fg == (Rgb { r: 100u8, g: 100u8, b: 100u8 }),
            r.prompt_fg == (Rgb { r: 0u8, g: 255u8, b: 255u8 }),
    {
        TextInputConfig {
            fg: Rgb { r: 255, g: 255, b: 255 },
            bg: Rgb { r: 30, g: 30, b: 30 },
            cursor_fg: Rgb { r: 0, g: 255, b: 255 },
            placeholder: String::new(),
            placeholder_fg: Rgb { r: 100, g: 100, b: 100 },
            prompt: String::from_str("> "),
            prompt_fg: Rgb { r: 0, g: 255, b: 255 },
        }
    }
}

/// The cell at widget column `col` of a rendered input row: the prompt,
/// then either the placeholder (while empty) or the content window that
/// keeps the cursor visible, with the cursor cell inverted while it
/// blinks on, and background spaces elsewhere.
pub open spec fn text_input_cell(
    content: Seq<char>,
    cursor: int,
    prompt: Seq<char>,
    placeholder: Seq<char>,
    fg: Rgb,
    bg: Rgb,
    cursor_fg: Rgb,
    placeholder_fg: Rgb,
    prompt_fg: Rgb,
    focused: bool,
    frame: u64,
    width: int,
    col: int,
) -> Cell {
    let pl = prompt.len() as int;
    let text_width = if width >= pl {
        width - pl
    } else {
        0
    };
    if col < pl {
        spec_char_cell(prompt[col], prompt_fg, bg)
    } else {
        let colp = col - pl;
        if content.len() == 0 && placeholder.len() > 0 {
            if colp < placeholder.len() && colp < text_width {
                spec_char_cell(placeholder[colp], placeholder_fg, bg)
            } else {
                spec_space_cell(Rgb { r: 255, g: 255, b: 255 }, bg)
            }
        } else {
            let scroll = if cursor >= text_width {
                cursor - text_width + 1
            } else {
                0
            };
            let cursor_visual = if cursor >= scroll {
                cursor - scroll
            } else {
                0
            };
            if focused && cursor == content.len() && colp == cursor_visual && cursor_visual
                < text_width && frame % 30 < 15 {
                spec_char_cell('\u{2588}', cursor_fg, bg)
            } else {
                let idx = scroll + colp;
                if idx < content.len() && colp < text_width {
                    if focused && idx == cursor && frame % 30 < 15 {
                        spec_char_cell(content[idx], bg, cursor_fg)
                    } else {
                        spec_char_cell(content[idx], fg, bg)
                    }
                } else {
                    spec_space_cell(Rgb { r: 255, g: 255, b: 255 }, bg)
                }
            }
        }
    }
}

/// A single-line text input with cursor and editing support.  The cursor
/// is a character index into the content.
#[derive(Debug)]
pub struct TextInput {
    /// The content, as characters.
    content: Vec<char>,
    /// Cursor position, in characters.
    cursor: usize,
    /// Widget bounds; only the first row is drawn.
    bounds: Rect,
    /// Whether the widget has focus.
    focused: bool,
    /// Configuration.
    config: TextInputConfig,
    /// Frame counter for cursor blinking.
    frame: u64,
    /// Redraw flag.
    dirty: bool,
}

impl TextInput {
    /// The content characters.
    pub closed spec fn spec_content(&self) -> Seq<char> {
        self.content@
    }

    /// The cursor position in characters.
    pub closed spec fn spec_cursor(&self) -> nat {
        self.cursor as nat
    }

    /// The bounds.
    pub closed spec fn spec_bounds(&self) -> Rect {
        self.bounds
    }

    /// Whether the widget has focus.
    pub closed spec fn spec_focused(&self) -> bool {
        self.focused
    }

    /// The frame counter.
    pub closed spec fn spec_frame(&self) -> u64 {
        self.frame
    }

    /// The redraw flag.
    pub closed spec fn spec_dirty(&self) -> bool {
        self.dirty
    }

    /// The prompt characters.
    pub closed spec fn spec_prompt(&self) -> Seq<char> {
        self.config.prompt@
    }

    /// The placeholder characters.
    pub closed spec fn spec_placeholder(&self) -> Seq<char> {
        self.config.placeholder@
    }

    /// The configuration.
    pub closed spec fn spec_config(&self) -> TextInputConfig {
        self.config
    }

    /// Well-formedness: the cursor stays within the content.
    pub open spec fn wf(&self) -> bool {
        self.spec_cursor() <= self.spec_content().len()
    }

    /// Create an input with the default configuration, focused.
    pub fn new(bounds: Rect) -> (r: TextInput)
        ensures
            r.wf(),
            r.spec_content() == Seq::<char>::empty(),
            r.spec_cursor() == 0,
            r.spec_bounds() == bounds,
            r.spec_focused(),
            r.spec_frame() == 0,
            r.spec_dirty(),
    {
        TextInput {
            content: Vec::new(),
            cursor: 0,
            bounds,
            focused: true,
            config: TextInputConfig::default(),
            frame: 0,
            dirty: true,
        }
    }

    /// Create an input with the given configuration, focused.
    pub fn with_config(bounds: Rect, config: TextInputConfig) -> (r: TextInput)
        ensures
            r.wf(),
            r.spec_content() == Seq::<char>::empty(),
            r.spec_cursor() == 0,
            r.spec_bounds() == bounds,
            r.spec_focused(),
            r.spec_frame() == 0,
            r.spec_dirty(),
            r.spec_config() == config,
    {
        TextInput {
            content: Vec::new(),
            cursor: 0,
            bounds,
            focused: true,
            config,
            frame: 0,
            dirty: true,
        }
    }

    /// The content as a string.
    pub fn content(&self) -> (r: String)
        ensures
            r@ == self.spec_content(),
    {
        chars_to_string(&self.content)
    }

    /// Replace the content, moving the cursor to the end.
    pub fn set_content(&mut self, content: &str)
        ensures
            final(self).wf(),
            final(self).spec_content() == content@,
            final(self).spec_cursor() == content@.len(),
            final(self).spec_bounds() == old(self).spec_bounds(),
            final(self).spec_focused() == old(self).spec_focused(),
            final(self).spec_config() == old(self).spec_config(),
            final(self).spec_dirty(),
    {
        self.content = str_chars(content);
        self.cursor = self.content.len();
        self.dirty = true;
    }

    /// Clear the content and home the cursor.
    pub fn clear(&mut self)
        ensures
            final(self).wf(),
            final(self).spec_content() == Seq::<char>::empty(),
            final(self).spec_cursor() == 0,
            final(self).spec_bounds() == old(self).spec_bounds(),
            final(self).spec_focused() == old(self).spec_focused(),
            final(self).spec_config() == old(self).spec_config(),
            final(self).spec_dirty(),
    {
        self.content = Vec::new();
        self.cursor = 0;
        self.dirty = true;
    }

    /// Whether the content is empty.
    pub fn is_empty(&self) -> (r: bool)
        ensures
            r == (self.spec_content().len() == 0),
    {
        self.content.len() == 0
    }

    /// Set or remove focus.
    pub fn set_focused(&mut self, focused: bool)
        ensures
            final(self).spec_focused() == focused,
            final(self).spec_content() == old(self).spec_content(),
            final(self).spec_cursor() == old(self).spec_cursor(),
            final(self).spec_config() == old(self).spec_config(),
            final(self).spec_dirty(),
            final(self).wf() == old(self).wf(),
    {
        self.focused = focused;
        self.dirty = true;
    }

    /// Whether the widget has focus.
    pub fn is_focused(&self) -> (r: bool)
        ensures
            r == self.spec_focused(),
    {
        self.focused
    }

    /// Advance the blink counter; every fifteenth frame of a focused
    /// input marks a redraw.
    pub fn tick(&mut self)
        ensures
            final(self).spec_frame() == (if old(self).spec_frame() < u64::MAX {
                old(self).spec_frame() + 1
            } else {
                0int
            }),
            final(self).spec_content() == old(self).spec_content(),
            final(self).spec_cursor() == old(self).spec_cursor(),
            final(self).spec_focused() == old(self).spec_focused(),
            final(self).spec_dirty() == (old(self).spec_dirty() || (old(self).spec_focused()
                && final(self).spec_frame() % 15 == 0)),
            final(self).wf() == old(self).wf(),
    {
        self.frame = if self.frame < u64::MAX {
            self.frame + 1
        } else {
            0
        };
        if self.focused && self.frame % 15 == 0 {
            self.dirty = true;
        }
    }

    /// Insert a character at the cursor and advance it.
    pub fn insert_char(&mut self, c: char)
        requires
            old(self).wf(),
            old(self).spec_content().len() < usize::MAX,
        ensures
            final(self).wf(),
            final(self).spec_content() == old(self).spec_content().insert(
                old(self).spec_cursor() as int,
                c,
            ),
            final(self).spec_cursor() == old(self).spec_cursor() + 1,
            final(self).spec_focused() == old(self).spec_focused(),
            final(self).spec_config() == old(self).spec_config(),
            final(self).spec_bounds() == old(self).spec_bounds(),
            final(self).spec_dirty(),
    {
        self.content.insert(self.cursor, c);
        self.cursor = self.cursor + 1;
        self.dirty = true;
    }

    /// Delete the character before the cursor, when there is one.
    pub fn backspace(&mut self)
        requires
            old(self).wf(),
        ensures
            final(self).wf(),
            old(self).spec_cursor() > 0 ==> final(self).spec_content() == old(
                self,
            ).spec_content().remove(old(self).spec_cursor() - 1) && final(self).spec_cursor()
                == old(self).spec_cursor() - 1 && final(self).spec_dirty(),
            old(self).spec_cursor() == 0 ==> final(self).spec_content() == old(
                self,
            ).spec_content() && final(self).spec_cursor() == 0 && final(self).spec_dirty() == old(
                self,
            ).spec_dirty(),
            final(self).spec_focused() == old(self).spec_focused(),
            final(self).spec_config() == old(self).spec_config(),
            final(self).spec_bounds() == old(self).spec_bounds(),
    {
        if self.cursor > 0 {
            self.content.remove(self.cursor - 1);
            self.cursor = self.cursor - 1;
            self.dirty = true;
        }
    }

    /// Delete the character at the cursor, when there is one.
    pub fn delete(&mut self)
        requires
            old(self).wf(),
        ensures
            final(self).wf(),
            old(self).spec_cursor() < old(self).spec_content().len() ==> final(self).spec_content() == old(self).spec_content().remove(old(self).spec_cursor() as int)
                && final(self).spec_dirty(),
            old(self).spec_cursor() >= old(self).spec_content().len() ==> final(self).spec_content() == old(self).spec_content() && final(self).spec_dirty() == old(
                self,
            ).spec_dirty(),
            final(self).spec_cursor() == old(self).spec_cursor(),
            final(self).spec_focused() == old(self).spec_focused(),
            final(self).spec_config() == old(self).spec_config(),
            final(self).spec_bounds() == old(self).spec_bounds(),
    {
        if self.cursor < self.content.len() {
            self.content.remove(self.cursor);
            self.dirty = true;
        }
    }

    /// Move the cursor one character left, when possible.
    pub fn cursor_left(&mut self)
        ensures
            final(self).spec_cursor() == (if old(self).spec_cursor() > 0 {
                old(self).spec_cursor() - 1
            } else {
                0int
            }),
            final(self).spec_content() == old(self).spec_content(),
            final(self).spec_focused() == old(self).spec_focused(),
            final(self).spec_config() == old(self).spec_config(),
            final(self).spec_bounds() == old(self).spec_bounds(),
            old(self).wf() ==> final(self).wf(),
    {
        if self.cursor > 0 {
            self.cursor = self.cursor - 1;
            self.dirty = true;
        }
    }

    /// Move the cursor one character right, when possible.
    pub fn cursor_right(&mut self)
        requires
            old(self).wf(),
        ensures
            final(self).wf(),
            final(self).spec_cursor() == (if old(self).spec_cursor() < old(
                self,
            ).spec_content().len() {
                old(self).spec_cursor() as int + 1
            } else {
                old(self).spec_cursor() as int
            }),
            final(self).spec_content() == old(self).spec_content(),
            final(self).spec_focused() == old(self).spec_focused(),
            final(self).spec_config() == old(self).spec_config(),
            final(self).spec_bounds() == old(self).spec_bounds(),
    {
        if self.cursor < self.content.len() {
            self.cursor = self.cursor + 1;
            self.dirty = true;
        }
    }

    /// Move the cursor to the start.
    pub fn cursor_home(&mut self)
        ensures
            final(self).spec_cursor() == 0,
            final(self).spec_content() == old(self).spec_content(),
            final(self).spec_focused() == old(self).spec_focused(),
            final(self).spec_config() == old(self).spec_config(),
            final(self).spec_bounds() == old(self).spec_bounds(),
            final(self).wf(),
    {
        if self.cursor != 0 {
            self.cursor = 0;
            self.dirty = true;
        }
    }

    /// Move the cursor to the end.
    pub fn cursor_end(&mut self)
        ensures
            final(self).spec_cursor() == old(self).spec_content().len(),
            final(self).spec_content() == old(self).spec_content(),
            final(self).spec_focused() == old(self).spec_focused(),
            final(self).spec_config() == old(self).spec_config(),
            final(self).spec_bounds() == old(self).spec_bounds(),
            final(self).wf(),
    {
        let end = self.content.len();
        if self.cursor != end {
            self.cursor = end;
            self.dirty = true;
        }
    }

    /// The cursor position in characters.
    pub fn cursor(&self) -> (r: usize)
        ensures
            r == self.spec_cursor(),
    {
        self.cursor
    }
}

impl Widget for TextInput {
    /// The widget bounds.
    fn bounds(&self) -> (r: Rect)
        ensures
            r == self.spec_bounds(),
    {
        self.bounds
    }

    /// Move or resize the input.
    fn set_bounds(&mut self, bounds: Rect) {
        self.bounds = bounds;
        self.dirty = true;
    }

    /// Render the input row: the prompt, then the placeholder or the
    /// content window with the blinking cursor, background elsewhere.
    fn render(&self, buffer: &mut Buffer)
        ensures
            forall|cx: int, cy: int|
                0 <= cx < final(buffer).spec_width() && 0 <= cy < final(buffer).spec_height()
                    ==> #[trigger] final(buffer).spec_cell_at(cx, cy) == (if cy
                    == self.spec_bounds().y && self.spec_bounds().x <= cx < self.spec_bounds().x
                    + self.spec_bounds().width {
                    text_input_cell(
                        self.spec_content(),
                        self.spec_cursor() as int,
                        self.spec_prompt(),
                        self.spec_placeholder(),
                        self.spec_config().fg,
                        self.spec_config().bg,
                        self.spec_config().cursor_fg,
                        self.spec_config().placeholder_fg,
                        self.spec_config().prompt_fg,
                        self.spec_focused(),
                        self.spec_frame(),
                        self.spec_bounds().width as int,
                        cx - self.spec_bounds().x,
                    )
                } else {
                    old(buffer).spec_cell_at(cx, cy)
                }),
    {
        let x = self.bounds.x;
        let y = self.bounds.y;
        let width = self.bounds.width;
        let prompt_chars = str_chars(self.config.prompt.as_str());
        let placeholder_chars = str_chars(self.config.placeholder.as_str());
        let mut col: u16 = 0;
        while col < width
            invariant
                col <= width,
                buffer.wf(),
                buffer.spec_width() == old(buffer).spec_width(),
                buffer.spec_height() == old(buffer).spec_height(),
                buffer.spec_overflow() == old(buffer).spec_overflow(),
                x == self.spec_bounds().x,
                y == self.spec_bounds().y,
                width == self.spec_bounds().width,
                prompt_chars@ == self.spec_prompt(),
                placeholder_chars@ == self.spec_placeholder(),
                forall|cx: int, cy: int|
                    0 <= cx < buffer.spec_width() && 0 <= cy < buffer.spec_height()
                        ==> #[trigger] buffer.spec_cell_at(cx, cy) == (if cy == y && x <= cx < x
                        + col {
                        text_input_cell(
                            self.spec_content(),
                            self.spec_cursor() as int,
                            self.spec_prompt(),
                            self.spec_placeholder(),
                            self.spec_config().fg,
                            self.spec_config().bg,
                            self.spec_config().cursor_fg,
                            self.spec_config().placeholder_fg,
                            self.spec_config().prompt_fg,
                            self.spec_focused(),
                            self.spec_frame(),
                            width as int,
                        cx - x,
                        )
                    } else {
                        old(buffer).spec_cell_at(cx, cy)
                    }),
            decreases width - col,
        {
            let pl = prompt_chars.len();
            let text_width: u16 = if (width as usize) >= pl {
                width - (pl as u16)
            } else {
                0
            };
            let cell: Cell = if (col as usize) < pl {
                let mut c = Cell::from_char(prompt_chars[col as usize]);
                c.set_fg(self.config.prompt_fg);
                c.set_bg(self.config.bg);
                c
            } else {
                let colp: u16 = col - (pl as u16);
                if self.content.len() == 0 && placeholder_chars.len() > 0 {
                    if (colp as usize) < placeholder_chars.len() && colp < text_width {
                        let mut c = Cell::from_char(placeholder_chars[colp as usize]);
                        c.set_fg(self.config.placeholder_fg);
                        c.set_bg(self.config.bg);
                        c
                    } else {
                        Cell {
                            g0: 0x20,
                            g1: 0,
                            g2: 0,
                            g3: 0,
                            grapheme_len: 1,
                            display_width: 1,
                            fg: Rgb { r: 255, g: 255, b: 255 },
                            bg: self.config.bg,
                            modifiers: crate::cell::Modifiers { bits: 0 },
                            flags: crate::cell::CellFlags { bits: 0 },
                            pad0: 0,
                            pad1: 0,
                        }
                    }
                } else {
                    let scroll: usize = if self.cursor >= text_width as usize {
                        self.cursor - text_width as usize + 1
                    } else {
                        0
                    };
                    let cursor_visual: usize = if self.cursor >= scroll {
                        self.cursor - scroll
                    } else {
                        0
                    };
                    if self.focused && self.cursor == self.content.len() && (colp as usize)
                        == cursor_visual && cursor_visual < text_width as usize && self.frame % 30
                        < 15 {
                        let mut c = Cell::from_char('\u{2588}');
                        c.set_fg(self.config.cursor_fg);
                        c.set_bg(self.config.bg);
                        c
                    } else {
                        let idx: usize = if scroll <= usize::MAX - colp as usize {
                            scroll + colp as usize
                        } else {
                            usize::MAX
                        };
                        if idx < self.content.len() && colp < text_width {
                            if self.focused && idx == self.cursor && self.frame % 30 < 15 {
                                let mut c = Cell::from_char(self.content[idx]);
                                c.set_fg(self.config.bg);
                                c.set_bg(self.config.cursor_fg);
                                c
                            } else {
                                let mut c = Cell::from_char(self.content[idx]);
                                c.set_fg(self.config.fg);
                                c.set_bg(self.config.bg);
                                c
                            }
                        } else {
                            Cell {
                                g0: 0x20,
                                g1: 0,
                                g2: 0,
                                g3: 0,
                                grapheme_len: 1,
                                display_width: 1,
                                fg: Rgb { r: 255, g: 255, b: 255 },
                                bg: self.config.bg,
                                modifiers: crate::cell::Modifiers { bits: 0 },
                                flags: crate::cell::CellFlags { bits: 0 },
                                pad0: 0,
                                pad1: 0,
                            }
                        }
                    }
                }
            };
            proof {
                assert(cell == text_input_cell(
                    self.spec_content(),
                    self.spec_cursor() as int,
                    self.spec_prompt(),
                    self.spec_placeholder(),
                    self.spec_config().fg,
                    self.spec_config().bg,
                    self.spec_config().cursor_fg,
                    self.spec_config().placeholder_fg,
                    self.spec_config().prompt_fg,
                    self.spec_focused(),
                    self.spec_frame(),
                    width as int,
                    col as int,
                ));
            }
            let px: u16 = if (x as u32) + (col as u32) <= 0xFFFF {
                x + col
            } else {
                0xFFFF
            };
            let ghost prev = *buffer;
            buffer.set(px, y, cell);
            proof {
                assert forall|cx: int, cy: int|
                    0 <= cx < buffer.spec_width() && 0 <= cy
                        < buffer.spec_height() implies #[trigger] buffer.spec_cell_at(cx, cy) == (
                if cy == y && x <= cx < x + col + 1 {
                    text_input_cell(
                        self.spec_content(),
                        self.spec_cursor() as int,
                        self.spec_prompt(),
                        self.spec_placeholder(),
                        self.spec_config().fg,
                        self.spec_config().bg,
                        self.spec_config().cursor_fg,
                        self.spec_config().placeholder_fg,
                        self.spec_config().prompt_fg,
                        self.spec_focused(),
                        self.spec_frame(),
                        width as int,
                        cx - x,
                    )
                } else {
                    old(buffer).spec_cell_at(cx, cy)
                }) by {
                    let w = buffer.spec_width() as int;
                    assert(prev.spec_cell_at(cx, cy) == (if cy == y && x <= cx < x + col {
                        text_input_cell(
                            self.spec_content(),
                            self.spec_cursor() as int,
                            self.spec_prompt(),
                            self.spec_placeholder(),
                            self.spec_config().fg,
                            self.spec_config().bg,
                            self.spec_config().cursor_fg,
                            self.spec_config().placeholder_fg,
                            self.spec_config().prompt_fg,
                            self.spec_focused(),
                            self.spec_frame(),
                            width as int,
                            cx - x,
                        )
                    } else {
                        old(buffer).spec_cell_at(cx, cy)
                    }));
                    if px < prev.spec_width() && y < prev.spec_height() {
                        assert((cy * w + cx == (y as int) * w + (px as int)) <==> (cx == px && cy
                            == y)) by (nonlinear_arith)
                            requires
                                0 <= cx < w,
                                0 <= cy,
                                0 <= px < w,
                                0 <= y,
                        ;
                        assert(0 <= cy * w + cx < buffer.spec_cells().len()) by (nonlinear_arith)
                            requires
                                0 <= cx < w,
                                0 <= cy < buffer.spec_height(),
                                buffer.spec_cells().len() == w * buffer.spec_height(),
                        ;
                        assert(0 <= (y as int) * w + (px as int) < buffer.spec_cells().len())
                            by (nonlinear_arith)
                            requires
                                0 <= px < w,
                                0 <= y < buffer.spec_height(),
                                buffer.spec_cells().len() == w * buffer.spec_height(),
                        ;
                    }
                }
            }
            col = col + 1;
        }
    }

    /// Handle a key press: printable characters insert at the cursor
    /// (unless a control or alt chord), and the editing keys edit; other
    /// events pass through.
    fn handle_input(&mut self, event: &InputEvent) -> (r: bool) {
        if !self.focused {
            return false;
        }
        match event {
            InputEvent::Key { code, modifiers } => {
                match code {
                    KeyCode::Char(c) => {
                        if !modifiers.control && !modifiers.alt {
                            if self.cursor <= self.content.len() && self.content.len()
                                < usize::MAX {
                                self.insert_char(*c);
                                return true;
                            }
                            return false;
                        }
                        false
                    },
                    KeyCode::Backspace => {
                        if self.cursor <= self.content.len() {
                            self.backspace();
                        }
                        true
                    },
                    KeyCode::Delete => {
                        if self.cursor <= self.content.len() {
                            self.delete();
                        }
                        true
                    },
                    KeyCode::Left => {
                        self.cursor_left();
                        true
                    },
                    KeyCode::Right => {
                        if self.cursor <= self.content.len() {
                            self.cursor_right();
                        }
                        true
                    },
                    KeyCode::Home => {
                        self.cursor_home();
                        true
                    },
                    KeyCode::End => {
                        self.cursor_end();
                        true
                    },
                    _ => false,
                }
            },
            _ => false,
        }
    }

    /// Whether the input needs a redraw.
    fn needs_redraw(&self) -> (r: bool)
        ensures
            r == self.spec_dirty(),
    {
        self.dirty
    }

    /// Clear the redraw flag.
    fn clear_redraw(&mut self)
        ensures
            !final(self).spec_dirty(),
    {
        self.dirty = false;
    }
}

} // verus!
