//! Intel 8251A programmable communication interface (one serial channel).
use vstd::prelude::*;
use crate::io::Keyboard;

verus! {

pub const CMD_TX_ENABLE: u8 = 0x01;
pub const CMD_DTR: u8 = 0x02;
pub const CMD_RX_ENABLE: u8 = 0x04;
pub const CMD_SEND_BREAK: u8 = 0x08;
pub const CMD_ERROR_RESET: u8 = 0x10;
pub const CMD_RTS: u8 = 0x20;
pub const CMD_RESET: u8 = 0x40;

pub const STATUS_TX_READY: u8 = 0x01;
pub const STATUS_RX_READY: u8 = 0x02;
pub const STATUS_TX_EMPTY: u8 = 0x04;
pub const STATUS_PARITY_ERR: u8 = 0x08;
pub const STATUS_OVERRUN_ERR: u8 = 0x10;
pub const STATUS_FRAMING_ERR: u8 = 0x20;

/// Which byte the control port expects next.
#[derive(Debug, Clone, Copy, PartialEq, Eq, Structural)]
pub enum UartState {
    ExpectMode,
    ExpectCommand,
    Ready,
}

/// Clock divisor selected by mode bits 1-0 (1, 16 or 64).
#[derive(Debug, Clone, Copy, PartialEq, Eq, Structural)]
pub enum BaudDivisor {
    Sync,
    X16,
    X64,
}

/// Character length selected by mode bits 3-2 (5 to 8 bits).
#[derive(Debug, Clone, Copy, PartialEq, Eq, Structural)]
pub enum CharLength {
    Bits5,
    Bits6,
    Bits7,
    Bits8,
}

/// Parity selected by mode bits 5-4.
#[derive(Debug, Clone, Copy, PartialEq, Eq, Structural)]
pub enum Parity {
    Disabled,
    Even,
    Odd,
}

/// Stop bits selected by mode bits 7-6.
#[derive(Debug, Clone, Copy, PartialEq, Eq, Structural)]
pub enum StopBits {
    Invalid,
    One,
    OneAndHalf,
    Two,
}

/// Abstract state of a UART channel.
pub struct UartView {
    pub state: UartState,
    pub baud_divisor: BaudDivisor,
    pub char_length: CharLength,
    pub parity: Parity,
    pub stop_bits: StopBits,
    pub tx_enabled: bool,
    pub rx_enabled: bool,
    pub dtr: bool,
    pub rts: bool,
    pub send_break: bool,
    pub status: u8,
    pub tx_data: Option<u8>,
    pub tx_draining: bool,
    pub rx_data: Option<u8>,
    /// Pending bytes of the attached keyboard, if one is attached.
    pub keyboard: Option<Seq<u8>>,
    /// Every byte accepted for transmission and not yet taken by the host.
    pub output: Seq<u8>,
}

/// Baud divisor encoded by mode bits 1-0.
pub open spec fn decode_baud(mode: u8) -> BaudDivisor {
    if mode & 0x03 < 2 {
        BaudDivisor::Sync
    } else if mode & 0x03 == 2 {
        BaudDivisor::X16
    } else {
        BaudDivisor::X64
    }
}

/// Character length encoded by mode bits 3-2.
pub open spec fn decode_char_length(mode: u8) -> CharLength {
    let b = (mode >> 2) & 0x03;
    if b == 0 {
        CharLength::Bits5
    } else if b == 1 {
        CharLength::Bits6
    } else if b == 2 {
        CharLength::Bits7
    } else {
        CharLength::Bits8
    }
}

/// Parity encoded by mode bits 5-4 (bit 4 enables, bit 5 selects even).
pub open spec fn decode_parity(mode: u8) -> Parity {
    if mode & 0x10 != 0 {
        if mode & 0x20 != 0 {
            Parity::Even
        } else {
            Parity::Odd
        }
    } else {
        Parity::Disabled
    }
}

/// Stop bits encoded by mode bits 7-6.
pub open spec fn decode_stop_bits(mode: u8) -> StopBits {
    let b = (mode >> 6) & 0x03;
    if b == 0 {
        StopBits::Invalid
    } else if b == 1 {
        StopBits::One
    } else if b == 2 {
        StopBits::OneAndHalf
    } else {
        StopBits::Two
    }
}

/// Effect of a mode instruction: the line format is set; an asynchronous mode
/// moves on to expecting a command, a synchronous one stays in ExpectMode.
pub open spec fn spec_after_mode(m: UartView, mode: u8) -> UartView {
    let baud = decode_baud(mode);
    UartView {
        baud_divisor: baud,
        char_length: decode_char_length(mode),
        parity: decode_parity(mode),
        stop_bits: decode_stop_bits(mode),
        state: if baud != BaudDivisor::Sync {
            UartState::ExpectCommand
        } else {
            m.state
        },
        ..m
    }
}

/// Effect of a command instruction (the state field is handled by the caller).
pub open spec fn spec_after_command(m: UartView, cmd: u8) -> UartView {
    if cmd & CMD_RESET != 0 {
        UartView {
            state: UartState::ExpectMode,
            tx_enabled: false,
            rx_enabled: false,
            status: STATUS_TX_EMPTY | STATUS_TX_READY,
            tx_data: None,
            rx_data: None,
            ..m
        }
    } else {
        let tx_en = cmd & CMD_TX_ENABLE != 0;
        let s1 = if cmd & CMD_ERROR_RESET != 0 {
            m.status & !(STATUS_PARITY_ERR | STATUS_OVERRUN_ERR | STATUS_FRAMING_ERR)
        } else {
            m.status
        };
        let s2 = if tx_en && m.tx_data is None {
            s1 | STATUS_TX_READY
        } else if !tx_en {
            s1 & !STATUS_TX_READY
        } else {
            s1
        };
        let s3 = if m.tx_data is None {
            s2 | STATUS_TX_EMPTY
        } else {
            s2
        };
        UartView {
            tx_enabled: tx_en,
            rx_enabled: cmd & CMD_RX_ENABLE != 0,
            dtr: cmd & CMD_DTR != 0,
            send_break: cmd & CMD_SEND_BREAK != 0,
            rts: cmd & CMD_RTS != 0,
            status: s3,
            ..m
        }
    }
}

/// Effect of a byte written to the control port: in ExpectMode a mode
/// instruction; otherwise a command, after which the channel is Ready unless
/// the command was an internal reset (back to ExpectMode).
pub open spec fn spec_write_control(m: UartView, value: u8) -> UartView {
    match m.state {
        UartState::ExpectMode => spec_after_mode(m, value),
        UartState::ExpectCommand => {
            let c = spec_after_command(m, value);
            if value & CMD_RESET != 0 {
                c
            } else {
                UartView { state: UartState::Ready, ..c }
            }
        },
        UartState::Ready => spec_after_command(m, value),
    }
}

/// Intel 8251A UART chip. One channel; the IMSAI SIO-2 has two (A=console, B=aux).
pub struct Uart8251 {
    state: UartState,
    baud_divisor: BaudDivisor,
    char_length: CharLength,
    parity: Parity,
    stop_bits: StopBits,
    tx_enabled: bool,
    rx_enabled: bool,
    dtr: bool,
    rts: bool,
    send_break: bool,
    status: u8,
    tx_data: Option<u8>,
    tx_draining: bool,
    rx_data: Option<u8>,
    keyboard: Option<Keyboard>,
    output_buffer: Vec<u8>,
}

impl View for Uart8251 {
    type V = UartView;

    closed spec fn view(&self) -> UartView {
        UartView {
            state: self.state,
            baud_divisor: self.baud_divisor,
            char_length: self.char_length,
            parity: self.parity,
            stop_bits: self.stop_bits,
            tx_enabled: self.tx_enabled,
            rx_enabled: self.rx_enabled,
            dtr: self.dtr,
            rts: self.rts,
            send_break: self.send_break,
            status: self.status,
            tx_data: self.tx_data,
            tx_draining: self.tx_draining,
            rx_data: self.rx_data,
            keyboard: match self.keyboard {
                Some(k) => Some(k@),
                None => None,
            },
            output: self.output_buffer@,
        }
    }
}

/// Power-on / internal-reset state with the given keyboard and output.
pub open spec fn spec_reset_view(keyboard: Option<Seq<u8>>, output: Seq<u8>) -> UartView {
    UartView {
        state: UartState::ExpectMode,
        baud_divisor: BaudDivisor::X16,
        char_length: CharLength::Bits8,
        parity: Parity::Disabled,
        stop_bits: StopBits::One,
        tx_enabled: false,
        rx_enabled: false,
        dtr: false,
        rts: false,
        send_break: false,
        status: STATUS_TX_EMPTY | STATUS_TX_READY,
        tx_data: None,
        tx_draining: false,
        rx_data: None,
        keyboard,
        output,
    }
}

impl Uart8251 {
    /// An attached keyboard is well formed.
    pub closed spec fn wf(&self) -> bool {
        self.keyboard matches Some(k) ==> k.wf()
    }

    pub fn new() -> (r: Self)
        ensures
            r.wf(),
            r@ == spec_reset_view(None, Seq::empty()),
    {
        Self {
            state: UartState::ExpectMode,
            baud_divisor: BaudDivisor::X16,
            char_length: CharLength::Bits8,
            parity: Parity::Disabled,
            stop_bits: StopBits::One,
            tx_enabled: false,
            rx_enabled: false,
            dtr: false,
            rts: false,
            send_break: false,
            status: STATUS_TX_EMPTY | STATUS_TX_READY,
            tx_data: None,
            tx_draining: false,
            rx_data: None,
            keyboard: None,
            output_buffer: Vec::new(),
        }
    }

    /// Attach a keyboard as the receive source.
    pub fn with_keyboard(self, keyboard: Keyboard) -> (r: Self)
        requires
            keyboard.wf(),
        ensures
            r.wf(),
            r@ == spec_with_keyboard(self@, keyboard@),
    {
        let mut s = self;
        s.keyboard = Some(keyboard);
        s
    }

    /// Internal reset: back to ExpectMode with the line format and enables cleared.
    pub fn reset(&mut self)
        requires
            old(self).wf(),
        ensures
            final(self).wf(),
            final(self)@ == spec_reset_view(old(self)@.keyboard, old(self)@.output),
    {
        self.state = UartState::ExpectMode;
        self.tx_enabled = false;
        self.rx_enabled = false;
        self.dtr = false;
        self.rts = false;
        self.send_break = false;
        self.status = STATUS_TX_EMPTY | STATUS_TX_READY;
        self.tx_data = None;
        self.tx_draining = false;
        self.rx_data = None;
        self.baud_divisor = BaudDivisor::X16;
        self.char_length = CharLength::Bits8;
        self.parity = Parity::Disabled;
        self.stop_bits = StopBits::One;
    }

    /// Read the receive data register: the received byte (clearing RxRDY and
    /// overrun), or 0x00 when nothing was received.
    pub fn read_data(&mut self) -> (r: u8)
        requires
            old(self).wf(),
        ensures
            final(self).wf(),
            r == spec_read_data(old(self)@).0,
            final(self)@ == spec_read_data(old(self)@).1,
    {
        if let Some(data) = self.rx_data.take() {
            self.status = self.status & !STATUS_RX_READY;
            self.status = self.status & !STATUS_OVERRUN_ERR;
            data
        } else {
            0
        }
    }

    pub fn read_status(&self) -> (r: u8)
        ensures
            r == self@.status,
    {
        self.status
    }

    /// Write the transmit data register. The byte is taken only when the
    /// transmitter is enabled and its holding register is empty; otherwise
    /// it is silently dropped.
    pub fn write_data(&mut self, value: u8)
        requires
            old(self).wf(),
        ensures
            final(self).wf(),
            final(self)@ == spec_write_data(old(self)@, value),
    {
        if !self.tx_enabled || self.tx_data.is_some() {
            return;
        }
        self.tx_data = Some(value);
        self.status = self.status & !STATUS_TX_READY;
        self.status = self.status & !STATUS_TX_EMPTY;
        self.tx_draining = false;
        self.output_buffer.push(value);
    }

    /// Control port write: mode instruction, then command instruction, then commands.
    pub fn write_control(&mut self, value: u8)
        requires
            old(self).wf(),
        ensures
            final(self).wf(),
            final(self)@ == spec_write_control(old(self)@, value),
    {
        match self.state {
            UartState::ExpectMode => self.write_mode(value),
            UartState::ExpectCommand => {
                self.write_command(value);
                if value & CMD_RESET == 0 {
                    self.state = UartState::Ready;
                }
            },
            UartState::Ready => self.write_command(value),
        }
    }

    // Mode instruction: bits 1:0=baud, 3:2=charlen, 4=parity en, 5=parity type, 7:6=stop
    fn write_mode(&mut self, value: u8)
        requires
            old(self).wf(),
        ensures
            final(self).wf(),
            final(self)@ == spec_after_mode(old(self)@, value),
    {
        let b = value & 0x03;
        self.baud_divisor = if b < 2 {
            BaudDivisor::Sync
        } else if b == 2 {
            BaudDivisor::X16
        } else {
            BaudDivisor::X64
        };
        let c = (value >> 2) & 0x03;
        self.char_length = if c == 0 {
            CharLength::Bits5
        } else if c == 1 {
            CharLength::Bits6
        } else if c == 2 {
            CharLength::Bits7
        } else {
            CharLength::Bits8
        };
        self.parity = if value & 0x10 != 0 {
            if value & 0x20 != 0 {
                Parity::Even
            } else {
                Parity::Odd
            }
        } else {
            Parity::Disabled
        };
        let s = (value >> 6) & 0x03;
        self.stop_bits = if s == 0 {
            StopBits::Invalid
        } else if s == 1 {
            StopBits::One
        } else if s == 2 {
            StopBits::OneAndHalf
        } else {
            StopBits::Two
        };
        if b >= 2 {
            self.state = UartState::ExpectCommand;
        }
    }

    // Command instruction: bit0=TXen, 1=DTR, 2=RXen, 3=break, 4=err reset, 5=RTS, 6=reset, 7=hunt
    fn write_command(&mut self, value: u8)
        requires
            old(self).wf(),
        ensures
            final(self).wf(),
            final(self)@ == spec_after_command(old(self)@, value),
    {
        if value & CMD_RESET != 0 {
            self.state = UartState::ExpectMode;
            self.tx_enabled = false;
            self.rx_enabled = false;
            self.status = STATUS_TX_EMPTY | STATUS_TX_READY;
            self.tx_data = None;
            self.rx_data = None;
            return;
        }
        self.tx_enabled = value & CMD_TX_ENABLE != 0;
        self.rx_enabled = value & CMD_RX_ENABLE != 0;
        self.dtr = value & CMD_DTR != 0;
        self.send_break = value & CMD_SEND_BREAK != 0;
        self.rts = value & CMD_RTS != 0;
        if value & CMD_ERROR_RESET != 0 {
            self.status = self.status & !(STATUS_PARITY_ERR | STATUS_OVERRUN_ERR
                | STATUS_FRAMING_ERR);
        }
        if self.tx_enabled && self.tx_data.is_none() {
            self.status = self.status | STATUS_TX_READY;
        } else if !self.tx_enabled {
            self.status = self.status & !STATUS_TX_READY;
        }
        if self.tx_data.is_none() {
            self.status = self.status | STATUS_TX_EMPTY;
        }
    }

    /// Move one keyboard byte into the receive register when the receiver is
    /// enabled and the register is empty; a waiting byte while the register is
    /// still full raises the overrun error.
    pub fn poll_rx(&mut self)
        requires
            old(self).wf(),
        ensures
            final(self).wf(),
            final(self)@ == spec_poll_rx(old(self)@),
    {
        if !self.rx_enabled {
            return;
        }
        if self.rx_data.is_none() {
            match self.keyboard.as_mut() {
                Some(kbd) => {
                    match kbd.read_char() {
                        Some(ch) => {
                            self.rx_data = Some(ch);
                            self.status = self.status | STATUS_RX_READY;
                        },
                        None => {},
                    }
                },
                None => {},
            }
        } else {
            let waiting = match &self.keyboard {
                Some(k) => k.is_char_ready(),
                None => false,
            };
            if waiting {
                self.status = self.status | STATUS_OVERRUN_ERR;
            }
        }
    }

    /// Hand the byte in the holding register to the output and re-assert
    /// TxRDY (when the transmitter is enabled); TxEMPTY follows once
    /// `update_tx` completes the transmission. The output buffer is kept.
    pub fn drain_tx(&mut self)
        requires
            old(self).wf(),
        ensures
            final(self).wf(),
            final(self)@ == spec_drain_tx(old(self)@),
    {
        if self.tx_data.is_some() && !self.tx_draining {
            self.tx_draining = true;
            if self.tx_enabled {
                self.status = self.status | STATUS_TX_READY;
            }
        }
    }

    /// Finish a transmission that is being shifted out, then re-assert TxRDY
    /// whenever the transmitter is enabled and the holding register is empty.
    pub fn update_tx(&mut self)
        requires
            old(self).wf(),
        ensures
            final(self).wf(),
            final(self)@ == spec_update_tx(old(self)@),
    {
        if self.tx_data.is_some() && self.tx_draining {
            self.tx_data = None;
            self.tx_draining = false;
            self.status = self.status | STATUS_TX_EMPTY;
        }
        if self.tx_enabled && self.tx_data.is_none() {
            self.status = self.status | STATUS_TX_READY;
        }
    }

    /// Return and clear the bytes transmitted so far.
    pub fn take_output(&mut self) -> (r: Vec<u8>)
        requires
            old(self).wf(),
        ensures
            final(self).wf(),
            r@ == old(self)@.output,
            final(self)@ == spec_output_taken(old(self)@),
    {
        let mut out = Vec::new();
        std::mem::swap(&mut out, &mut self.output_buffer);
        out
    }

    pub fn has_output(&self) -> (r: bool)
        ensures
            r == (self@.output.len() > 0),
    {
        !self.output_buffer.is_empty()
    }

    /// RxRDY is status bit 1 (0x02).
    pub fn is_rx_ready(&self) -> (r: bool)
        ensures
            r == (self@.status & STATUS_RX_READY != 0),
    {
        self.status & STATUS_RX_READY != 0
    }

    /// TxRDY is status bit 0 (0x01).
    pub fn is_tx_ready(&self) -> (r: bool)
        ensures
            r == (self@.status & STATUS_TX_READY != 0),
    {
        self.status & STATUS_TX_READY != 0
    }

    pub fn state(&self) -> (r: UartState)
        ensures
            r == self@.state,
    {
        self.state
    }

    pub fn is_tx_enabled(&self) -> (r: bool)
        ensures
            r == self@.tx_enabled,
    {
        self.tx_enabled
    }

    pub fn is_rx_enabled(&self) -> (r: bool)
        ensures
            r == self@.rx_enabled,
    {
        self.rx_enabled
    }

    /// Data terminal ready, command bit 1.
    pub fn dtr(&self) -> (r: bool)
        ensures
            r == self@.dtr,
    {
        self.dtr
    }

    /// Request to send, command bit 5.
    pub fn rts(&self) -> (r: bool)
        ensures
            r == self@.rts,
    {
        self.rts
    }

    /// Bypass keyboard and inject a byte directly into RX.
    pub fn inject_rx_byte(&mut self, value: u8)
        requires
            old(self).wf(),
        ensures
            final(self).wf(),
            final(self)@ == spec_inject_rx(old(self)@, value),
    {
        self.rx_data = Some(value);
        self.status = self.status | STATUS_RX_READY;
    }

    pub fn baud_divisor(&self) -> (r: BaudDivisor)
        ensures
            r == self@.baud_divisor,
    {
        self.baud_divisor
    }

    pub fn char_length(&self) -> (r: CharLength)
        ensures
            r == self@.char_length,
    {
        self.char_length
    }

    pub fn parity(&self) -> (r: Parity)
        ensures
            r == self@.parity,
    {
        self.parity
    }

    pub fn stop_bits(&self) -> (r: StopBits)
        ensures
            r == self@.stop_bits,
    {
        self.stop_bits
    }
}

/// The channel with a keyboard attached.
pub open spec fn spec_with_keyboard(m: UartView, k: Seq<u8>) -> UartView {
    UartView { keyboard: Some(k), ..m }
}

/// Byte returned by a data-register read, and the channel afterwards.
pub open spec fn spec_read_data(m: UartView) -> (u8, UartView) {
    match m.rx_data {
        Some(d) => (
            d,
            UartView {
                rx_data: None,
                status: m.status & !STATUS_RX_READY & !STATUS_OVERRUN_ERR,
                ..m
            },
        ),
        None => (0, m),
    }
}

/// Effect of a data-register write: accepted only when the transmitter is
/// enabled and its holding register is empty.
pub open spec fn spec_write_data(m: UartView, value: u8) -> UartView {
    if m.tx_enabled && m.tx_data is None {
        UartView {
            tx_data: Some(value),
            status: m.status & !STATUS_TX_READY & !STATUS_TX_EMPTY,
            tx_draining: false,
            output: m.output.push(value),
            ..m
        }
    } else {
        m
    }
}

/// Effect of draining the holding register: the byte is handed on and TxRDY
/// is re-asserted when the transmitter is enabled.
pub open spec fn spec_drain_tx(m: UartView) -> UartView {
    if m.tx_data is Some && !m.tx_draining {
        UartView {
            tx_draining: true,
            status: if m.tx_enabled { m.status | STATUS_TX_READY } else { m.status },
            ..m
        }
    } else {
        m
    }
}

/// The channel after the host took the transmitted bytes.
pub open spec fn spec_output_taken(m: UartView) -> UartView {
    UartView { output: Seq::empty(), ..m }
}

/// The channel after a byte was placed straight into the receiver.
pub open spec fn spec_inject_rx(m: UartView, value: u8) -> UartView {
    UartView { rx_data: Some(value), status: m.status | STATUS_RX_READY, ..m }
}

/// Effect of polling the keyboard into the receiver.
pub open spec fn spec_poll_rx(m: UartView) -> UartView {
    if !m.rx_enabled {
        m
    } else if m.rx_data is None {
        match m.keyboard {
            Some(k) => if k.len() > 0 {
                UartView {
                    rx_data: Some(k[0]),
                    status: m.status | STATUS_RX_READY,
                    keyboard: Some(k.drop_first()),
                    ..m
                }
            } else {
                m
            },
            None => m,
        }
    } else {
        match m.keyboard {
            Some(k) => if k.len() > 0 {
                UartView { status: m.status | STATUS_OVERRUN_ERR, ..m }
            } else {
                m
            },
            None => m,
        }
    }
}

/// Effect of completing a transmission.
pub open spec fn spec_update_tx(m: UartView) -> UartView {
    let m1 = if m.tx_data is Some && m.tx_draining {
        UartView { tx_data: None, tx_draining: false, status: m.status | STATUS_TX_EMPTY, ..m }
    } else {
        m
    };
    if m1.tx_enabled && m1.tx_data is None {
        UartView { status: m1.status | STATUS_TX_READY, ..m1 }
    } else {
        m1
    }
}

impl Default for Uart8251 {
    fn default() -> (r: Self)
        ensures
            r.wf(),
            r@ == spec_reset_view(None, Seq::empty()),
    {
        Self::new()
    }
}


/// A command byte with the internal-reset bit (0x40) returns a configured
/// channel to ExpectMode with both directions disabled, the status at
/// TxRDY|TxEMPTY (0x05) and any byte waiting to go out or to be read
/// dropped.
pub proof fn lemma_command_reset_returns_to_expect_mode(m: UartView, value: u8)
    requires
        m.state != UartState::ExpectMode,
        value & CMD_RESET != 0,
    ensures
        spec_write_control(m, value).state == UartState::ExpectMode,
        !spec_write_control(m, value).tx_enabled,
        !spec_write_control(m, value).rx_enabled,
        spec_write_control(m, value).status == 0x05,
        spec_write_control(m, value).tx_data is None,
        spec_write_control(m, value).rx_data is None,
{
    lemma_error_reset_bits(m.status);
}

/// A command byte with error reset (bit 4) and without internal reset
/// clears the parity, overrun and framing error bits (0x38).
pub proof fn lemma_error_reset_clears_errors(m: UartView, value: u8)
    requires
        m.state != UartState::ExpectMode,
        value & 0x50 == 0x10,
    ensures
        spec_write_control(m, value).status & 0x38 == 0,
{
    lemma_error_reset_bits(m.status);
    lemma_command_bits(value);
}

/// The status bits a command leaves after an error reset.
proof fn lemma_error_reset_bits(x: u8)
    by (bit_vector)
    ensures
        STATUS_TX_EMPTY | STATUS_TX_READY == 0x05,
        (x & !(STATUS_PARITY_ERR | STATUS_OVERRUN_ERR | STATUS_FRAMING_ERR)) & 0x38 == 0,
        ((x & !(STATUS_PARITY_ERR | STATUS_OVERRUN_ERR | STATUS_FRAMING_ERR)) | STATUS_TX_READY) & 0x38 == 0,
        ((x & !(STATUS_PARITY_ERR | STATUS_OVERRUN_ERR | STATUS_FRAMING_ERR)) & !STATUS_TX_READY) & 0x38 == 0,
        (((x & !(STATUS_PARITY_ERR | STATUS_OVERRUN_ERR | STATUS_FRAMING_ERR)) | STATUS_TX_READY) | STATUS_TX_EMPTY)
            & 0x38 == 0,
        (((x & !(STATUS_PARITY_ERR | STATUS_OVERRUN_ERR | STATUS_FRAMING_ERR)) & !STATUS_TX_READY) | STATUS_TX_EMPTY)
            & 0x38 == 0,
        ((x & !(STATUS_PARITY_ERR | STATUS_OVERRUN_ERR | STATUS_FRAMING_ERR)) | STATUS_TX_EMPTY) & 0x38 == 0,
{
}

/// Bits 4 and 6 of a command byte as `value & 0x50` shows them.
proof fn lemma_command_bits(v: u8)
    by (bit_vector)
    ensures
        v & 0x50 == 0x10 ==> v & CMD_RESET == 0 && v & CMD_ERROR_RESET != 0,
{
}

/// In ExpectMode a control byte is a mode instruction: an asynchronous mode
/// (baud bits 10 or 11) moves on to ExpectCommand, a synchronous one
/// (00 or 01) stays in ExpectMode.
pub proof fn lemma_mode_before_command(m: UartView, mode: u8)
    requires
        m.state == UartState::ExpectMode,
    ensures
        mode & 0x03 >= 2 ==> spec_write_control(m, mode).state == UartState::ExpectCommand,
        mode & 0x03 < 2 ==> spec_write_control(m, mode).state == UartState::ExpectMode,
        spec_write_control(m, mode).tx_enabled == m.tx_enabled,
        spec_write_control(m, mode).rx_enabled == m.rx_enabled,
{
}

/// A mode instruction sets the line format from its bit fields, read here as
/// digits of the byte: bit 4 (`(mode / 16) % 2`) enables parity and bit 5
/// (`(mode / 32) % 2`) selects even over odd; bits 3-2 give 5 to 8 data bits;
/// bits 7-6 give the stop bits (00 invalid, 01 one, 10 one and a half,
/// 11 two); bits 1-0 give the clock factor (00 and 01 synchronous, 10 x16,
/// 11 x64).
pub proof fn lemma_mode_instruction_fields(m: UartView, mode: u8)
    requires
        m.state == UartState::ExpectMode,
    ensures
        ({
            let r = spec_write_control(m, mode);
            &&& (mode / 16) % 2 == 0 ==> r.parity == Parity::Disabled
            &&& (mode / 16) % 2 == 1 && (mode / 32) % 2 == 1 ==> r.parity == Parity::Even
            &&& (mode / 16) % 2 == 1 && (mode / 32) % 2 == 0 ==> r.parity == Parity::Odd
            &&& (mode / 4) % 4 == 0 ==> r.char_length == CharLength::Bits5
            &&& (mode / 4) % 4 == 1 ==> r.char_length == CharLength::Bits6
            &&& (mode / 4) % 4 == 2 ==> r.char_length == CharLength::Bits7
            &&& (mode / 4) % 4 == 3 ==> r.char_length == CharLength::Bits8
            &&& mode / 64 == 0 ==> r.stop_bits == StopBits::Invalid
            &&& mode / 64 == 1 ==> r.stop_bits == StopBits::One
            &&& mode / 64 == 2 ==> r.stop_bits == StopBits::OneAndHalf
            &&& mode / 64 == 3 ==> r.stop_bits == StopBits::Two
            &&& mode % 4 < 2 ==> r.baud_divisor == BaudDivisor::Sync
            &&& mode % 4 == 2 ==> r.baud_divisor == BaudDivisor::X16
            &&& mode % 4 == 3 ==> r.baud_divisor == BaudDivisor::X64
        }),
{
    assert(((mode & 0x10 != 0) == ((mode / 16) % 2 == 1)) && ((mode & 0x20 != 0) == ((mode / 32)
        % 2 == 1)) && ((mode >> 2) & 0x03 == (mode / 4) % 4) && ((mode >> 6) & 0x03 == mode / 64)
        && (mode & 0x03 == mode % 4)) by (bit_vector);
}

/// The documented console initialization (mode 0x4E, then command 0x05)
/// leaves a freshly reset channel ready, configured for 8 data bits, no
/// parity, one stop bit at x16, with both directions enabled and TxRDY
/// (status bit 0) set.
pub proof fn lemma_console_init_sequence(keyboard: Option<Seq<u8>>, output: Seq<u8>)
    ensures
        ({
            let m = spec_write_control(spec_write_control(spec_reset_view(keyboard, output), 0x4E), 0x05);
            &&& m.state == UartState::Ready
            &&& m.char_length == CharLength::Bits8
            &&& m.parity == Parity::Disabled
            &&& m.stop_bits == StopBits::One
            &&& m.baud_divisor == BaudDivisor::X16
            &&& m.tx_enabled && m.rx_enabled
            &&& m.status & STATUS_TX_READY != 0
            &&& m.status & STATUS_RX_READY == 0
            &&& m.keyboard == keyboard
            &&& m.output == output
        }),
{
    assert((0x4Eu8 & 0x03 == 2) &&
        ((0x4Eu8 >> 2u8) & 0x03 == 3) &&
        (0x4Eu8 & 0x10 == 0) &&
        ((0x4Eu8 >> 6u8) & 0x03 == 1) &&
        (0x05u8 & 0x40 == 0 && 0x05u8 & 0x01 != 0 && 0x05u8 & 0x04 != 0) &&
        (0x05u8 & 0x10 == 0) &&
        (((0x04u8 | 0x01u8) | 0x01u8) | 0x04u8 == 0x05u8) &&
        (0x05u8 & 0x01 != 0 && 0x05u8 & 0x02 == 0)) by (bit_vector);
}

/// A byte written while the transmitter is enabled and idle is queued for
/// output; draining it re-asserts TxRDY at once, and once the transmission
/// completes the transmitter is idle and ready again.
pub proof fn lemma_transmit_round(m: UartView, value: u8)
    requires
        m.tx_enabled,
        m.tx_data is None,
    ensures
        spec_write_data(m, value).output == m.output.push(value),
        spec_write_data(m, value).status & STATUS_TX_READY == 0,
        spec_drain_tx(spec_write_data(m, value)).status & STATUS_TX_READY != 0,
        spec_drain_tx(spec_write_data(m, value)).output == m.output.push(value),
        ({
            let m2 = spec_update_tx(spec_drain_tx(spec_write_data(m, value)));
            &&& m2.tx_data is None
            &&& m2.status & STATUS_TX_READY != 0
            &&& m2.output == m.output.push(value)
        }),
{
    let st = m.status;
    assert(st & !STATUS_TX_READY & !STATUS_TX_EMPTY & STATUS_TX_READY == 0) by (bit_vector);
    let s1 = st & !STATUS_TX_READY & !STATUS_TX_EMPTY;
    assert((s1 | STATUS_TX_READY) & STATUS_TX_READY != 0) by (bit_vector);
    assert((((s1 | STATUS_TX_READY) | STATUS_TX_EMPTY) | STATUS_TX_READY) & STATUS_TX_READY != 0) by (bit_vector);
}

/// With the transmitter disabled, data writes are dropped.
pub proof fn lemma_tx_disabled_drops(m: UartView, value: u8)
    requires
        !m.tx_enabled,
    ensures
        spec_write_data(m, value) == m,
{
}

/// A key typed on an enabled, empty receiver is delivered by the next poll
/// and read back by the CPU; the keyboard moves on to the next key and
/// RxRDY is clear again.
pub proof fn lemma_keyboard_to_cpu(m: UartView, k: Seq<u8>)
    requires
        m.rx_enabled,
        m.rx_data is None,
        m.keyboard == Some(k),
        k.len() > 0,
    ensures
        spec_read_data(spec_poll_rx(m)).0 == k[0],
        spec_read_data(spec_poll_rx(m)).1.keyboard == Some(k.drop_first()),
        spec_read_data(spec_poll_rx(m)).1.rx_data is None,
        spec_read_data(spec_poll_rx(m)).1.status & STATUS_RX_READY == 0,
        spec_poll_rx(m).status & STATUS_RX_READY != 0,
{
    let st = m.status;
    assert((st | STATUS_RX_READY) & STATUS_RX_READY != 0) by (bit_vector);
    assert((st | STATUS_RX_READY) & !STATUS_RX_READY & !STATUS_OVERRUN_ERR & STATUS_RX_READY == 0) by (bit_vector);
}

/// A second key arriving while the first is unread sets the overrun error
/// and keeps the first key.
pub proof fn lemma_rx_overrun(m: UartView, k: Seq<u8>)
    requires
        m.rx_enabled,
        m.rx_data is Some,
        m.keyboard == Some(k),
        k.len() > 0,
    ensures
        spec_poll_rx(m).status & STATUS_OVERRUN_ERR != 0,
        spec_poll_rx(m).rx_data == m.rx_data,
        spec_poll_rx(m).keyboard == m.keyboard,
{
    let st = m.status;
    assert((st | STATUS_OVERRUN_ERR) & STATUS_OVERRUN_ERR != 0) by (bit_vector);
}

} // verus!
