//! IMSAI SIO-2 dual serial card: two 8251A channels, console keyboard and screen.
use vstd::prelude::*;
use vstd::string::StringSliceAdditionalSpecFns;
use crate::chips::uart8251::{
    Uart8251, UartView, spec_read_data, spec_write_data, spec_write_control, spec_inject_rx,
    spec_drain_tx, spec_update_tx, spec_output_taken,
};
use crate::io::keyboard::Keyboard;
use crate::io::video::{VideoDisplay, VideoView, spec_write_char, video_view_wf};

verus! {

/// Abstract card state.
pub struct SerialView {
    pub channel_a: UartView,
    pub channel_b: UartView,
    pub video: VideoView,
    pub keyboard: Seq<u8>,
}

/// Channel A after one keyboard byte is moved into its receiver (when enabled).
pub open spec fn spec_poll_keyboard(s: SerialView) -> SerialView {
    if s.channel_a.rx_enabled && s.keyboard.len() > 0 {
        SerialView {
            channel_a: spec_inject_rx(s.channel_a, s.keyboard[0]),
            keyboard: s.keyboard.drop_first(),
            ..s
        }
    } else {
        s
    }
}

/// Keyboard polled, then the transmitter drained and TxRDY re-asserted.
pub open spec fn spec_service(s: SerialView) -> SerialView {
    let s1 = spec_poll_keyboard(s);
    SerialView { channel_a: spec_update_tx(spec_drain_tx(s1.channel_a)), ..s1 }
}

/// The screen after showing a sequence of bytes.
pub open spec fn video_after(v: VideoView, bytes: Seq<u8>) -> VideoView
    decreases bytes.len(),
{
    if bytes.len() == 0 {
        v
    } else {
        spec_write_char(video_after(v, bytes.drop_last()), bytes.last())
    }
}

/// Channel A's transmitted bytes moved to the screen.
pub open spec fn spec_drain_output(s: SerialView) -> SerialView {
    SerialView {
        channel_a: spec_output_taken(s.channel_a),
        video: video_after(s.video, s.channel_a.output),
        ..s
    }
}

/// Byte returned by a port read and the card afterwards.
pub open spec fn spec_io_read(s: SerialView, port: u8) -> (u8, SerialView) {
    let s1 = if port == 0x00 || port == 0x01 || port == 0x79 {
        spec_service(s)
    } else {
        s
    };
    if port == 0x00 || port == 0x7B {
        let (v, a) = spec_read_data(s1.channel_a);
        (v, SerialView { channel_a: a, ..s1 })
    } else if port == 0x01 || port == 0x79 {
        (s1.channel_a.status, s1)
    } else if port == 0x02 {
        let (v, b) = spec_read_data(s1.channel_b);
        (v, SerialView { channel_b: b, ..s1 })
    } else if port == 0x03 {
        (s1.channel_b.status, s1)
    } else {
        (0xFF, s1)
    }
}

/// The card after a port write.
pub open spec fn spec_io_write(s: SerialView, port: u8, value: u8) -> SerialView {
    if port == 0x00 || port == 0x7B {
        SerialView { channel_a: spec_write_data(s.channel_a, value), ..s }
    } else if port == 0x01 {
        SerialView { channel_a: spec_write_control(s.channel_a, value), ..s }
    } else if port == 0x02 {
        SerialView { channel_b: spec_write_data(s.channel_b, value), ..s }
    } else if port == 0x03 {
        SerialView { channel_b: spec_write_control(s.channel_b, value), ..s }
    } else {
        s
    }
}

/// Ports decoded by the card: 0x00-0x03 and the channel A aliases 0x79 and 0x7B.
pub open spec fn serial_port(port: u8) -> bool {
    port <= 0x03 || port == 0x79 || port == 0x7B
}

/// IMSAI SIO-2 dual-channel serial card. Channel A = console, Channel B = auxiliary.
pub struct SerialCard {
    channel_a: Uart8251,
    channel_b: Uart8251,
    video: VideoDisplay,
    keyboard: Keyboard,
}

impl View for SerialCard {
    type V = SerialView;

    closed spec fn view(&self) -> SerialView {
        SerialView {
            channel_a: self.channel_a@,
            channel_b: self.channel_b@,
            video: self.video@,
            keyboard: self.keyboard@,
        }
    }
}

impl SerialCard {
    /// Component invariants; the screen has at least one row.
    pub closed spec fn wf(&self) -> bool {
        &&& self.channel_a.wf()
        &&& self.channel_b.wf()
        &&& self.video.wf()
        &&& self.video@.height > 0
        &&& self.keyboard.wf()
    }

    pub fn new() -> (r: Self)
        ensures
            r.wf(),
            r@.channel_a == crate::chips::uart8251::spec_reset_view(None, Seq::empty()),
            r@.channel_b == crate::chips::uart8251::spec_reset_view(None, Seq::empty()),
            r@.keyboard == Seq::<u8>::empty(),
            r@.video.width == 80 && r@.video.height == 24,
            r@.video.cursor_x == 0 && r@.video.cursor_y == 0,
            r@.video.rows == Seq::new(24, |i: int| crate::io::video::blank_row(80)),
            r@.video.auto_render,
    {
        Self {
            channel_a: Uart8251::new(),
            channel_b: Uart8251::new(),
            video: VideoDisplay::new(80, 24),
            keyboard: Keyboard::new(),
        }
    }

    /// Queue typed text for the console.
    /// The screen as text, one line per row.
    pub fn display_string(&self) -> (r: String)
        requires
            self.wf(),
        ensures
            r@ == crate::io::video::screen_text(self@.video.rows),
    {
        self.video.get_display_string()
    }

    pub fn type_text(&mut self, text: &str)
        requires
            old(self).wf(),
        ensures
            final(self).wf(),
            final(self)@ == (SerialView { keyboard: old(self)@.keyboard + text.spec_bytes(), ..old(self)@ }),
    {
        self.keyboard.type_text(text);
    }

    pub fn is_key_ready(&self) -> (r: bool)
        requires
            self.wf(),
        ensures
            r == (self@.keyboard.len() > 0),
    {
        self.keyboard.is_char_ready()
    }

    pub fn video(&self) -> (r: &VideoDisplay)
        ensures
            r@ == self@.video,
    {
        &self.video
    }

    pub fn video_mut(&mut self) -> (r: &mut VideoDisplay)
        ensures
            r@ == old(self)@.video,
            final(self)@ == (SerialView { video: final(r)@, ..old(self)@ }),
            old(self).wf() ==> (final(self).wf() <==> final(r).wf() && final(r)@.height > 0),
    {
        &mut self.video
    }

    /// Blank the screen and home the cursor.
    pub fn clear_screen(&mut self)
        requires
            old(self).wf(),
        ensures
            final(self).wf(),
            final(self)@ == (SerialView {
                video: VideoView {
                    cursor_x: 0,
                    cursor_y: 0,
                    rows: Seq::new(old(self)@.video.height, |i: int| crate::io::video::blank_row(old(self)@.video.width)),
                    ..old(self)@.video
                },
                ..old(self)@
            }),
    {
        self.video.clear();
    }

    pub fn set_auto_render(&mut self, enabled: bool)
        requires
            old(self).wf(),
        ensures
            final(self).wf(),
            final(self)@ == (SerialView {
                video: VideoView { auto_render: enabled, ..old(self)@.video },
                ..old(self)@
            }),
    {
        self.video.set_auto_render(enabled);
    }

    pub fn channel_a_mut(&mut self) -> (r: &mut Uart8251)
        ensures
            r@ == old(self)@.channel_a,
            final(self)@ == (SerialView { channel_a: final(r)@, ..old(self)@ }),
            old(self).wf() ==> (r.wf() && (final(self).wf() <==> final(r).wf())),
    {
        &mut self.channel_a
    }

    pub fn channel_a(&self) -> (r: &Uart8251)
        ensures
            r@ == self@.channel_a,
            self.wf() ==> r.wf(),
    {
        &self.channel_a
    }

    pub fn channel_b_mut(&mut self) -> (r: &mut Uart8251)
        ensures
            r@ == old(self)@.channel_b,
            final(self)@ == (SerialView { channel_b: final(r)@, ..old(self)@ }),
            old(self).wf() ==> (r.wf() && (final(self).wf() <==> final(r).wf())),
    {
        &mut self.channel_b
    }

    /// Poll keyboard into Channel A RX without draining TX output.
    pub fn poll_keyboard(&mut self)
        requires
            old(self).wf(),
        ensures
            final(self).wf(),
            final(self)@ == spec_poll_keyboard(old(self)@),
    {
        if self.channel_a.is_rx_enabled() {
            if let Some(ch) = self.keyboard.read_char() {
                self.channel_a.inject_rx_byte(ch);
            }
        }
    }

    /// Service Channel A UART: inject keyboard input, drain TX shift register.
    /// Does NOT consume the output buffer (the host calls `take_output()`).
    pub fn service_uart(&mut self)
        requires
            old(self).wf(),
        ensures
            final(self).wf(),
            final(self)@ == spec_service(old(self)@),
    {
        self.poll_keyboard();
        self.channel_a.drain_tx();
        self.channel_a.update_tx();
    }

    /// Move channel A's transmitted bytes to the screen. Returns whether the
    /// screen should be redrawn (auto-render on and something was shown).
    pub fn drain_output(&mut self) -> (r: bool)
        requires
            old(self).wf(),
        ensures
            final(self).wf(),
            final(self)@ == spec_drain_output(old(self)@),
            r == (old(self)@.video.auto_render && old(self)@.channel_a.output.len() > 0),
    {
        let output = self.channel_a.take_output();
        let mut i: usize = 0;
        let ghost v0 = self.video@;
        let ghost s0 = self@;
        while i < output.len()
            invariant
                i <= output@.len(),
                self.channel_a.wf(),
                self.channel_b.wf(),
                self.keyboard.wf(),
                self@.channel_a == s0.channel_a,
                self@.channel_b == s0.channel_b,
                self@.keyboard == s0.keyboard,
                self.video.wf(),
                self.video@.height > 0,
                self.video@.auto_render == v0.auto_render,
                self.video@ == video_after(v0, output@.subrange(0, i as int)),
            decreases output@.len() - i,
        {
            assert(output@.subrange(0, i + 1).drop_last() =~= output@.subrange(0, i as int));
            self.video.write_char(output[i]);
            i = i + 1;
        }
        assert(output@.subrange(0, output@.len() as int) =~= output@);
        self.video.auto_render() && output.len() > 0
    }

    /// Poll keyboard and drain TX output to the video display (terminal mode).
    /// Returns whether the screen should be redrawn.
    pub fn poll_rx(&mut self) -> (r: bool)
        requires
            old(self).wf(),
        ensures
            final(self).wf(),
            final(self)@ == spec_poll_rx_card(old(self)@),
            r == (old(self)@.video.auto_render && spec_poll_keyboard(old(self)@).channel_a.output.len() > 0),
    {
        self.poll_keyboard();
        let redraw = self.drain_output();
        self.channel_a.drain_tx();
        self.channel_a.update_tx();
        redraw
    }

    /// Read a port: 0x00/0x7B channel A data, 0x01/0x79 channel A status,
    /// 0x02/0x03 channel B data/status, others 0xFF. Console reads service
    /// the UART first so TxRDY polling makes progress.
    pub fn io_read(&mut self, port: u8) -> (r: u8)
        requires
            old(self).wf(),
        ensures
            final(self).wf(),
            r == spec_io_read(old(self)@, port).0,
            final(self)@ == spec_io_read(old(self)@, port).1,
    {
        if port == 0x00 || port == 0x01 || port == 0x79 {
            self.service_uart();
        }
        if port == 0x00 || port == 0x7B {
            self.channel_a.read_data()
        } else if port == 0x01 || port == 0x79 {
            self.channel_a.read_status()
        } else if port == 0x02 {
            self.channel_b.read_data()
        } else if port == 0x03 {
            self.channel_b.read_status()
        } else {
            0xFF
        }
    }

    /// Write a port: 0x00/0x7B channel A data, 0x01 channel A control,
    /// 0x02/0x03 channel B data/control, others ignored.
    pub fn io_write(&mut self, port: u8, value: u8)
        requires
            old(self).wf(),
        ensures
            final(self).wf(),
            final(self)@ == spec_io_write(old(self)@, port, value),
    {
        if port == 0x00 || port == 0x7B {
            self.channel_a.write_data(value);
        } else if port == 0x01 {
            self.channel_a.write_control(value);
        } else if port == 0x02 {
            self.channel_b.write_data(value);
        } else if port == 0x03 {
            self.channel_b.write_control(value);
        }
    }

    pub fn owns_port(&self, port: u8) -> (r: bool)
        ensures
            r == serial_port(port),
    {
        port <= 0x03 || port == 0x79 || port == 0x7B
    }

    /// The card decodes no memory addresses.
    pub fn owns_address(&self, _addr: u16) -> (r: bool)
        ensures
            !r,
    {
        false
    }

    pub fn name(&self) -> (r: &'static str)
        ensures
            r@ == "SIO-2 Serial"@,
    {
        "SIO-2 Serial"
    }
}

/// Keyboard polled, output shown on screen, then the transmitter drained.
pub open spec fn spec_poll_rx_card(s: SerialView) -> SerialView {
    let s1 = spec_drain_output(spec_poll_keyboard(s));
    SerialView { channel_a: spec_update_tx(spec_drain_tx(s1.channel_a)), ..s1 }
}

impl Default for SerialCard {
    fn default() -> (r: Self)
        ensures
            r.wf(),
    {
        Self::new()
    }
}

} // verus!
