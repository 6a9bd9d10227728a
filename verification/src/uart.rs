//! UART0 console.
//!
//! The ROM leaves UART0 clocked and configured, so the kernel just writes bytes
//! into the TX FIFO. The hardware holds all state; what is decided here is when
//! a byte may go out, when the FIFO is empty, and which bytes a text becomes.

use vstd::prelude::*;

use crate::mmio::RegWrite;

verus! {

pub const UART0_BASE: u32 = 0x6000_0000;

/// FIFO write register.
pub const UART_FIFO: u32 = UART0_BASE;

/// STATUS register.
pub const UART_STATUS: u32 = UART0_BASE + 0x1C;

/// STATUS[25:16] = bytes currently in TX FIFO.
pub const TXFIFO_CNT_SHIFT: u32 = 16;

pub const TXFIFO_CNT_MASK: u32 = 0x3FF;

/// UART TX FIFO depth.
pub const UART_TX_FIFO_LEN: u32 = 128;

/// The field STATUS[25:16].
pub open spec fn fifo_fill(status: u32) -> int {
    status as int / 0x1_0000 % 0x400
}

/// UART0 console writer. There is exactly one; it is a unit struct because there
/// is no state to keep.
#[derive(Debug, Clone, Copy)]
pub struct Writer;

/// How far a text has been written.
#[derive(Debug, Clone, Copy, PartialEq, Eq, Structural)]
pub struct Cursor {
    /// The byte that is being written.
    pub at: usize,
    /// Whether the carriage return before it is out.
    pub returned: bool,
}

/// The line feed byte.
pub const LF: u8 = 10;

/// The carriage return byte.
pub const CR: u8 = 13;

/// What goes out for one byte of text: a line feed gets a carriage return before
/// it.
pub open spec fn expanded(byte: u8) -> Seq<u8> {
    if byte == LF {
        seq![CR, LF]
    } else {
        seq![byte]
    }
}

/// What goes out for a text.
pub open spec fn translated(text: Seq<u8>) -> Seq<u8>
    decreases text.len(),
{
    if text.len() == 0 {
        Seq::empty()
    } else {
        expanded(text[0]) + translated(text.skip(1))
    }
}

impl Cursor {
    /// The cursor stands in the text, and a carriage return is out only before a
    /// line feed.
    pub open spec fn valid(self, text: Seq<u8>) -> bool {
        &&& self.at <= text.len()
        &&& self.returned ==> self.at < text.len() && text[self.at as int] == LF
    }

    /// What is still to go out.
    pub open spec fn rest(self, text: Seq<u8>) -> Seq<u8> {
        let all = translated(text.skip(self.at as int));
        if self.returned {
            all.skip(1)
        } else {
            all
        }
    }

    /// The beginning of a text.
    pub fn start() -> (c: Self)
        ensures
            forall|text: Seq<u8>| #[trigger] c.valid(text),
            forall|text: Seq<u8>| #[trigger] c.rest(text) == translated(text),
    {
        let c = Cursor { at: 0, returned: false };
        assert forall|text: Seq<u8>| #[trigger] c.rest(text) == translated(text) by {
            assert(text.skip(0) =~= text);
        }
        c
    }
}

impl Writer {
    pub fn txfifo_count(status: u32) -> (count: u32)
        ensures
            count == fifo_fill(status),
    {
        assert((status >> 16u32) & 0x3FF == status / 0x1_0000 % 0x400) by (bit_vector);
        (status >> TXFIFO_CNT_SHIFT) & TXFIFO_CNT_MASK
    }

    /// Emit one byte, given the STATUS register: the FIFO write if there is room
    /// in the TX FIFO, `None` if the status has to be read again.
    pub fn putc(status: u32, byte: u8) -> (write: Option<RegWrite>)
        ensures
            write == if fifo_fill(status) < UART_TX_FIFO_LEN {
                Some(RegWrite { addr: UART_FIFO, value: byte as u32 })
            } else {
                None
            },
    {
        if Self::txfifo_count(status) >= UART_TX_FIFO_LEN {
            None
        } else {
            Some(RegWrite { addr: UART_FIFO, value: byte as u32 })
        }
    }

    /// Whether the TX FIFO is fully shifted out, given the STATUS register. Read
    /// it until this holds before parking the CPU or resetting, so no output is
    /// lost.
    pub fn drain(status: u32) -> (drained: bool)
        ensures
            drained == (fifo_fill(status) == 0),
    {
        Self::txfifo_count(status) == 0
    }

    /// The next byte to put out for `text`, `None` at its end. The UART does no
    /// newline translation, so it happens here.
    pub fn write_str(text: &[u8], c: &mut Cursor) -> (byte: Option<u8>)
        requires
            old(c).valid(text@),
        ensures
            final(c).valid(text@),
            match byte {
                Some(b) => old(c).rest(text@) == seq![b] + final(c).rest(text@),
                None => old(c).rest(text@).len() == 0 && *final(c) == *old(c),
            },
    {
        if c.at == text.len() {
            return None;
        }
        let byte: u8 = text[c.at];
        let ghost tail = text@.skip(c.at as int);
        proof {
            assert(translated(tail) == expanded(tail[0]) + translated(tail.skip(1)));
            assert(tail.skip(1) =~= text@.skip(c.at + 1));
        }
        if byte == LF && !c.returned {
            c.returned = true;
            assert(old(c).rest(text@) =~= seq![CR] + c.rest(text@));
            return Some(CR);
        }
        c.at += 1;
        c.returned = false;
        assert(old(c).rest(text@) =~= seq![byte] + c.rest(text@));
        Some(byte)
    }
}

/// **Newlines are translated, everything else passes.** Texts written one after
/// the other go out as the text they make together would.
pub proof fn law_translation_is_bytewise(first: Seq<u8>, second: Seq<u8>)
    ensures
        translated(first + second) == translated(first) + translated(second),
    decreases first.len(),
{
    if first.len() == 0 {
        assert(first + second =~= second);
        assert(translated(first) + translated(second) =~= translated(second));
    } else {
        law_translation_is_bytewise(first.skip(1), second);
        assert((first + second).skip(1) =~= first.skip(1) + second);
        assert(expanded(first[0]) + (translated(first.skip(1)) + translated(second)) =~= expanded(
            first[0],
        ) + translated(first.skip(1)) + translated(second));
    }
}

/// **A byte goes out as itself, a line feed behind a carriage return.** With the
/// bytewise law this says what goes out for every text.
pub proof fn law_each_byte_goes_out(byte: u8)
    ensures
        translated(Seq::empty()) == Seq::<u8>::empty(),
        byte != 10 ==> translated(seq![byte]) == seq![byte],
        byte == 10 ==> translated(seq![byte]) == seq![13u8, 10u8],
{
    assert(seq![byte].skip(1) =~= Seq::<u8>::empty());
    assert(translated(seq![byte].skip(1)) =~= Seq::<u8>::empty());
    assert(translated(seq![byte]) =~= if byte == 10 {
        seq![13u8, 10u8]
    } else {
        seq![byte]
    });
}

/// **A text without line feeds goes out unchanged.**
pub proof fn law_plain_text_is_unchanged(text: Seq<u8>)
    requires
        forall|i: int| 0 <= i < text.len() ==> #[trigger] text[i] != 10,
    ensures
        translated(text) == text,
    decreases text.len(),
{
    if text.len() > 0 {
        assert forall|i: int| 0 <= i < text.skip(1).len() implies #[trigger] text.skip(1)[i]
            != 10 by {
            assert(text.skip(1)[i] == text[i + 1]);
        }
        law_plain_text_is_unchanged(text.skip(1));
        assert(translated(text) =~= text);
    } else {
        assert(translated(text) =~= text);
    }
}

/// **A line ends in carriage return, line feed.** A line without a line feed
/// inside goes out as it is, then its end, then what the rest becomes.
pub proof fn law_line_gets_its_end(line: Seq<u8>, rest: Seq<u8>)
    requires
        forall|i: int| 0 <= i < line.len() ==> #[trigger] line[i] != 10,
    ensures
        translated(line + seq![10u8] + rest) == line + seq![13u8, 10u8] + translated(rest),
{
    law_plain_text_is_unchanged(line);
    law_each_byte_goes_out(10);
    law_translation_is_bytewise(line + seq![10u8], rest);
    law_translation_is_bytewise(line, seq![10u8]);
}

/// **A cursor splits the output.** What the text before the cursor became, the
/// carriage return if it is out, and what is still to go out make up what goes
/// out for the whole text. At the end of the text nothing is left.
pub proof fn law_cursor_splits_output(text: Seq<u8>, c: Cursor)
    requires
        c.at <= text.len(),
        c.returned ==> c.at < text.len() && text[c.at as int] == 10,
    ensures
        c.valid(text),
        translated(text) == translated(text.take(c.at as int)) + (if c.returned {
            seq![13u8]
        } else {
            Seq::empty()
        }) + c.rest(text),
        c.at == text.len() ==> c.rest(text).len() == 0,
        c.at < text.len() ==> c.rest(text).len() > 0,
{
    let (before, after) = (text.take(c.at as int), text.skip(c.at as int));
    assert(text =~= before + after);
    law_translation_is_bytewise(before, after);
    if c.at < text.len() {
        assert(after =~= seq![text[c.at as int]] + after.skip(1));
        law_each_byte_goes_out(text[c.at as int]);
        law_translation_is_bytewise(seq![text[c.at as int]], after.skip(1));
    }
    assert(translated(text) =~= translated(before) + (if c.returned {
        seq![13u8]
    } else {
        Seq::empty()
    }) + c.rest(text));
}

/// **The fill count is a field of its own.** Whatever the bits below and above
/// it hold, STATUS[25:16] is what is counted.
pub proof fn law_fill_is_a_field(above: u32, fill: u32, below: u32)
    requires
        above < 64,
        fill < 1024,
        below < 0x1_0000,
    ensures
        fifo_fill((above * 0x400_0000 + fill * 0x1_0000 + below) as u32) == fill,
{
    let status = above * 0x400_0000 + fill * 0x1_0000 + below;
    assert(status / 0x1_0000 == above * 1024 + fill);
}

} // verus!
