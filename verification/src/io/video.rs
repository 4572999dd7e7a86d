//! 80x24 CRT terminal fed by the console UART.
use vstd::prelude::*;

verus! {

/// Abstract screen: cursor, size, character rows and the auto-render flag.
pub struct VideoView {
    pub cursor_x: nat,
    pub cursor_y: nat,
    pub width: nat,
    pub height: nat,
    pub rows: Seq<Seq<char>>,
    pub auto_render: bool,
}

/// A row of blanks.
pub open spec fn blank_row(width: nat) -> Seq<char> {
    Seq::new(width, |i: int| ' ')
}

/// The rows moved up by one with a blank row at the bottom.
pub open spec fn scrolled(rows: Seq<Seq<char>>, width: nat) -> Seq<Seq<char>> {
    rows.drop_first().push(blank_row(width))
}

/// Cursor moved to the start of the next line, scrolling at the bottom.
pub open spec fn spec_new_line(v: VideoView) -> VideoView {
    if v.cursor_y + 1 >= v.height {
        VideoView {
            cursor_x: 0,
            cursor_y: (v.height - 1) as nat,
            rows: scrolled(v.rows, v.width),
            ..v
        }
    } else {
        VideoView { cursor_x: 0, cursor_y: v.cursor_y + 1, ..v }
    }
}

/// Effect of one byte written to the display: CR, LF and BS are interpreted,
/// any other byte is shown as the character with that code, wrapping at the
/// right edge and scrolling at the bottom.
pub open spec fn spec_write_char(v: VideoView, b: u8) -> VideoView {
    let c = b as char;
    if b == 10 {
        spec_new_line(v)
    } else if b == 13 {
        VideoView { cursor_x: 0, ..v }
    } else if b == 8 {
        if v.cursor_x > 0 {
            let x = (v.cursor_x - 1) as nat;
            VideoView {
                cursor_x: x,
                rows: v.rows.update(v.cursor_y as int, v.rows[v.cursor_y as int].update(x as int, ' ')),
                ..v
            }
        } else {
            v
        }
    } else if v.cursor_x < v.width && v.cursor_y < v.height {
        let v1 = VideoView {
            cursor_x: v.cursor_x + 1,
            rows: v.rows.update(v.cursor_y as int, v.rows[v.cursor_y as int].update(v.cursor_x as int, c)),
            ..v
        };
        if v1.cursor_x >= v.width {
            spec_new_line(v1)
        } else {
            v1
        }
    } else {
        v
    }
}

/// The screen as text: every row followed by a newline.
pub open spec fn screen_text(rows: Seq<Seq<char>>) -> Seq<char>
    decreases rows.len(),
{
    if rows.len() == 0 {
        Seq::empty()
    } else {
        screen_text(rows.drop_last()) + rows.last().push('\n')
    }
}

/// Video display controller for the IMSAI 8080.
pub struct VideoDisplay {
    cursor_x: usize,
    cursor_y: usize,
    width: usize,
    height: usize,
    buffer: Vec<Vec<char>>,
    auto_render: bool,
}

impl View for VideoDisplay {
    type V = VideoView;

    closed spec fn view(&self) -> VideoView {
        VideoView {
            cursor_x: self.cursor_x as nat,
            cursor_y: self.cursor_y as nat,
            width: self.width as nat,
            height: self.height as nat,
            rows: Seq::new(self.buffer@.len(), |i: int| self.buffer@[i]@),
            auto_render: self.auto_render,
        }
    }
}

/// Shape invariant of a screen.
pub open spec fn video_view_wf(v: VideoView) -> bool {
    &&& v.rows.len() == v.height
    &&& forall|i: int| 0 <= i < v.height ==> (#[trigger] v.rows[i]).len() == v.width
    &&& v.cursor_x <= v.width
    &&& (v.height > 0 ==> v.cursor_y < v.height)
    &&& (v.height == 0 ==> v.cursor_x == 0 && v.cursor_y == 0)
}

impl VideoDisplay {
    /// Rows match the size and the cursor is on screen.
    pub open spec fn wf(&self) -> bool {
        video_view_wf(self@)
    }

    pub fn new(width: usize, height: usize) -> (r: Self)
        ensures
            r.wf(),
            r@ == (VideoView {
                cursor_x: 0,
                cursor_y: 0,
                width: width as nat,
                height: height as nat,
                rows: Seq::new(height as nat, |i: int| blank_row(width as nat)),
                auto_render: true,
            }),
    {
        let mut buffer: Vec<Vec<char>> = Vec::new();
        let mut i: usize = 0;
        while i < height
            invariant
                i <= height,
                buffer@.len() == i,
                forall|j: int| 0 <= j < i ==> (#[trigger] buffer@[j])@ == blank_row(width as nat),
            decreases height - i,
        {
            let row = vec![' '; width];
            assert(row@ =~= blank_row(width as nat));
            buffer.push(row);
            i = i + 1;
        }
        let r = Self { cursor_x: 0, cursor_y: 0, width, height, buffer, auto_render: true };
        assert(r@.rows =~= Seq::new(height as nat, |i: int| blank_row(width as nat)));
        r
    }

    /// Whether every displayed byte should trigger a redraw.
    pub fn auto_render(&self) -> (r: bool)
        ensures
            r == self@.auto_render,
    {
        self.auto_render
    }

    /// Turn redraw-on-output on or off.
    pub fn set_auto_render(&mut self, enabled: bool)
        ensures
            final(self)@ == (VideoView { auto_render: enabled, ..old(self)@ }),
    {
        self.auto_render = enabled;
    }

    fn set_cell(&mut self, y: usize, x: usize, c: char)
        requires
            old(self).wf(),
            y < old(self)@.height,
            x < old(self)@.width,
        ensures
            final(self)@ == (VideoView {
                rows: old(self)@.rows.update(y as int, old(self)@.rows[y as int].update(x as int, c)),
                ..old(self)@
            }),
            final(self).wf(),
    {
        let mut row = self.buffer.remove(y);
        row.set(x, c);
        self.buffer.insert(y, row);
        assert(self@.rows =~= old(self)@.rows.update(y as int, old(self)@.rows[y as int].update(x as int, c)));
    }

    fn scroll_up(&mut self)
        requires
            old(self).wf(),
            old(self)@.height > 0,
        ensures
            final(self).wf(),
            final(self)@ == (VideoView { rows: scrolled(old(self)@.rows, old(self)@.width), ..old(self)@ }),
    {
        let _top = self.buffer.remove(0);
        let row = vec![' '; self.width];
        assert(row@ =~= blank_row(self.width as nat));
        self.buffer.push(row);
        assert(self@.rows =~= scrolled(old(self)@.rows, old(self)@.width));
    }

    fn new_line(&mut self)
        requires
            old(self).wf(),
            old(self)@.height > 0,
        ensures
            final(self).wf(),
            final(self)@ == spec_new_line(old(self)@),
    {
        self.cursor_x = 0;
        if self.cursor_y + 1 >= self.height {
            self.scroll_up();
            self.cursor_y = self.height - 1;
        } else {
            self.cursor_y = self.cursor_y + 1;
        }
    }

    /// Display one byte (CR, LF and BS are control characters).
    pub fn write_char(&mut self, ch: u8)
        requires
            old(self).wf(),
            old(self)@.height > 0 || ch != 10,
        ensures
            final(self).wf(),
            final(self)@ == spec_write_char(old(self)@, ch),
    {
        let c = ch as char;
        if ch == 10 {
            self.new_line();
        } else if ch == 13 {
            self.cursor_x = 0;
        } else if ch == 8 {
            if self.cursor_x > 0 {
                self.cursor_x = self.cursor_x - 1;
                let x = self.cursor_x;
                let y = self.cursor_y;
                self.set_cell(y, x, ' ');
            }
        } else if self.cursor_x < self.width && self.cursor_y < self.height {
            let x = self.cursor_x;
            let y = self.cursor_y;
            self.set_cell(y, x, c);
            self.cursor_x = self.cursor_x + 1;
            if self.cursor_x >= self.width {
                self.new_line();
            }
        }
    }

    /// Blank the screen and home the cursor.
    pub fn clear(&mut self)
        requires
            old(self).wf(),
        ensures
            final(self).wf(),
            final(self)@ == (VideoView {
                cursor_x: 0,
                cursor_y: 0,
                rows: Seq::new(old(self)@.height, |i: int| blank_row(old(self)@.width)),
                ..old(self)@
            }),
    {
        let mut y: usize = 0;
        while y < self.height
            invariant
                self.wf(),
                y <= self@.height,
                self@.width == old(self)@.width,
                self@.height == old(self)@.height,
                self@.auto_render == old(self)@.auto_render,
                self@.cursor_x == old(self)@.cursor_x,
                self@.cursor_y == old(self)@.cursor_y,
                forall|j: int| 0 <= j < y ==> #[trigger] self@.rows[j] == blank_row(self@.width),
            decreases self@.height - y,
        {
            let ghost before = self@.rows;
            let _old_row = self.buffer.remove(y);
            let row = vec![' '; self.width];
            assert(row@ =~= blank_row(self.width as nat));
            self.buffer.insert(y, row);
            assert(self@.rows =~= before.update(y as int, blank_row(self@.width)));
            y = y + 1;
        }
        self.cursor_x = 0;
        self.cursor_y = 0;
        assert(self@.rows =~= Seq::new(old(self)@.height, |i: int| blank_row(old(self)@.width)));
    }

    /// What a redraw sends to the terminal: cursor home, then the screen
    /// one line per row.
    pub fn render(&self) -> (r: String)
        requires
            self.wf(),
        ensures
            r@ == "\x1B[H"@ + screen_text(self@.rows),
    {
        let mut out = String::new();
        crate::text::push_text(&mut out, "\x1B[H");
        let screen = self.get_display_string();
        crate::text::push_text(&mut out, screen.as_str());
        out
    }

    /// The screen as text, one line per row, each ending in a newline.
    pub fn get_display_string(&self) -> (r: String)
        requires
            self.wf(),
        ensures
            r@ == screen_text(self@.rows),
    {
        let mut result = String::new();
        let mut y: usize = 0;
        while y < self.height
            invariant
                self.wf(),
                y <= self.height,
                result@ == screen_text(self@.rows.subrange(0, y as int)),
            decreases self.height - y,
        {
            let row = &self.buffer[y];
            let mut x: usize = 0;
            let ghost before = result@;
            while x < self.width
                invariant
                    self.wf(),
                    y < self.height,
                    x <= self.width,
                    row@ == self@.rows[y as int],
                    result@ == before + row@.subrange(0, x as int),
                decreases self.width - x,
            {
                result.push(row[x]);
                assert(result@ =~= before + row@.subrange(0, x + 1));
                x = x + 1;
            }
            result.push('\n');
            assert(row@.subrange(0, x as int) =~= row@);
            assert(self@.rows.subrange(0, y + 1).drop_last() =~= self@.rows.subrange(0, y as int));
            y = y + 1;
        }
        assert(self@.rows.subrange(0, self.height as int) =~= self@.rows);
        result
    }
}


/// Lines wrap at the right edge: a character written in the last column
/// moves the cursor to the start of the next line, and on the last row the
/// screen scrolls up instead.
pub proof fn lemma_wrap_at_right_edge(v: VideoView, b: u8)
    requires
        video_view_wf(v),
        v.height > 0,
        v.cursor_x + 1 == v.width,
        b != 10 && b != 13 && b != 8,
    ensures
        ({
            let w = spec_write_char(v, b);
            let shown = v.rows.update(
                v.cursor_y as int,
                v.rows[v.cursor_y as int].update(v.cursor_x as int, b as char),
            );
            &&& w.cursor_x == 0
            &&& v.cursor_y + 1 < v.height ==> w.cursor_y == v.cursor_y + 1 && w.rows == shown
            &&& v.cursor_y + 1 >= v.height ==> w.cursor_y == v.height - 1 && w.rows == scrolled(
                shown,
                v.width,
            )
        }),
{
}

/// A line feed on the last row scrolls the screen up one line; the cursor
/// stays on the last row, at column 0.
pub proof fn lemma_line_feed_scrolls_at_bottom(v: VideoView)
    requires
        video_view_wf(v),
        v.height > 0,
        v.cursor_y + 1 == v.height,
    ensures
        spec_write_char(v, 10).cursor_y == v.height - 1,
        spec_write_char(v, 10).cursor_x == 0,
        spec_write_char(v, 10).rows == scrolled(v.rows, v.width),
        spec_write_char(v, 10).rows.len() == v.height,
{
}

} // verus!
