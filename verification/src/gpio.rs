//! The GPIO driver: requests, register writes, and the software shadow.
//!
//! The GPIO capsule owns the GPIO peripheral exclusively. It keeps a shadow of
//! pin direction and output level, one bit per pin, which makes toggle and read
//! independent of MMIO read-back.

use vstd::prelude::*;

use crate::mmio::{RegWrite, WriteList};

verus! {

pub const GPIO_BASE: u32 = 0x6000_4000;

/// Output set and clear registers: each 1 bit written sets or clears its pin.
pub const GPIO_OUT_W1TS: u32 = GPIO_BASE + 0x04;

pub const GPIO_OUT_W1TC: u32 = GPIO_BASE + 0x08;

/// Output-enable set and clear registers.
pub const GPIO_ENABLE_W1TS: u32 = GPIO_BASE + 0x24;

pub const GPIO_ENABLE_W1TC: u32 = GPIO_BASE + 0x28;

/// Input levels.
pub const GPIO_IN: u32 = GPIO_BASE + 0x3C;

pub const IOMUX_BASE: u32 = 0x6000_8000;

/// `IO_MUX_GPIOx_REG`: `MCU_SEL` field [14:12] = 1 selects the GPIO function;
/// `FUN_IE` bit 9 enables the input path.
pub const MCU_SEL_GPIO: u32 = 1 << 12;

pub const FUN_IE: u32 = 1 << 9;

/// Only the low GPIO bank is driven.
pub const N_PINS: u8 = 32;

/// Status codes of the GPIO capsule.
pub const GPIO_OK: u8 = 0;

pub const GPIO_BAD_PIN: u8 = 1;

pub const GPIO_BAD_REQ: u8 = 2;

/// Configure a pin: ASCII `C`.
pub const OP_CONFIGURE: u8 = 0x43;

/// Drive a pin high: ASCII `S`.
pub const OP_SET: u8 = 0x53;

/// Drive a pin low: ASCII `c`.
pub const OP_CLEAR: u8 = 0x63;

/// Toggle a pin: ASCII `T`.
pub const OP_TOGGLE: u8 = 0x54;

/// Read a pin: ASCII `R`.
pub const OP_READ: u8 = 0x52;

// ---------------------------------------------------------------------------
// Bits
// ---------------------------------------------------------------------------

/// The bits of a word, least significant first.
pub open spec fn bits(word: u32) -> Seq<bool> {
    Seq::new(32, |i: int| (word >> (i as u32)) & 1 == 1)
}

/// The word with only bit `pin` set.
pub open spec fn mask(pin: u8) -> u32 {
    1u32 << (pin as u32)
}

proof fn lemma_bits(word: u32, pin: u8)
    requires
        pin < 32,
    ensures
        bits(word | mask(pin)) == bits(word).update(pin as int, true),
        bits(word & !mask(pin)) == bits(word).update(pin as int, false),
        (word & mask(pin) != 0) == bits(word)[pin as int],
        ((word >> (pin as u32)) & 1) <= 1,
{
    let p = pin as u32;
    let m = mask(pin);
    assert forall|i: int| 0 <= i < 32 implies bits(word | m)[i] == bits(word).update(
        pin as int,
        true,
    )[i] && bits(word & !m)[i] == bits(word).update(pin as int, false)[i] by {
        let q = i as u32;
        assert(((word | (1u32 << p)) >> q) & 1 == if p == q {
            1u32
        } else {
            (word >> q) & 1
        } && ((word & !(1u32 << p)) >> q) & 1 == if p == q {
            0u32
        } else {
            (word >> q) & 1
        }) by (bit_vector)
            requires
                p < 32,
                q < 32,
        ;
    }
    assert(bits(word | m) =~= bits(word).update(pin as int, true));
    assert(bits(word & !m) =~= bits(word).update(pin as int, false));
    assert(((word & (1u32 << p)) != 0) == ((word >> p) & 1 == 1) && ((word >> p) & 1) <= 1)
        by (bit_vector)
        requires
            p < 32,
    ;
}

// ---------------------------------------------------------------------------
// Hardware access
// ---------------------------------------------------------------------------

/// The IO MUX register of a pin.
pub open spec fn iomux(pin: u8) -> u32 {
    (IOMUX_BASE + 4 * pin) as u32
}

/// The writes that make a pin an output driven low, or an input.
pub open spec fn configure_writes(pin: u8, output: bool) -> Seq<RegWrite> {
    if output {
        seq![
            RegWrite { addr: iomux(pin), value: MCU_SEL_GPIO },
            RegWrite { addr: GPIO_ENABLE_W1TS, value: mask(pin) },
            RegWrite { addr: GPIO_OUT_W1TC, value: mask(pin) },
        ]
    } else {
        seq![
            RegWrite { addr: iomux(pin), value: MCU_SEL_GPIO | FUN_IE },
            RegWrite { addr: GPIO_ENABLE_W1TC, value: mask(pin) },
        ]
    }
}

/// Make `pin` an output, driven low, or an input.
pub fn configure(pin: u8, output: bool) -> (writes: WriteList)
    requires
        pin < N_PINS,
    ensures
        writes.wf(),
        writes@ == configure_writes(pin, output),
{
    let iomux: u32 = IOMUX_BASE + 4 * pin as u32;
    let mask: u32 = 1u32 << (pin as u32);
    let mut writes = WriteList::none();
    if output {
        writes.push(iomux, MCU_SEL_GPIO);
        writes.push(GPIO_ENABLE_W1TS, mask);
        writes.push(GPIO_OUT_W1TC, mask);
    } else {
        writes.push(iomux, MCU_SEL_GPIO | FUN_IE);
        writes.push(GPIO_ENABLE_W1TC, mask);
    }
    assert(writes@ =~= configure_writes(pin, output));
    writes
}

/// Drive `pin` high.
pub fn set(pin: u8) -> (write: RegWrite)
    requires
        pin < N_PINS,
    ensures
        write == (RegWrite { addr: GPIO_OUT_W1TS, value: mask(pin) }),
{
    RegWrite { addr: GPIO_OUT_W1TS, value: 1u32 << (pin as u32) }
}

/// Drive `pin` low.
pub fn clear(pin: u8) -> (write: RegWrite)
    requires
        pin < N_PINS,
    ensures
        write == (RegWrite { addr: GPIO_OUT_W1TC, value: mask(pin) }),
{
    RegWrite { addr: GPIO_OUT_W1TC, value: 1u32 << (pin as u32) }
}

/// The level of `pin`, given the input register ([`GPIO_IN`]).
pub fn read_input(gpio_in: u32, pin: u8) -> (level: u8)
    requires
        pin < N_PINS,
    ensures
        level == level_of(bits(gpio_in)[pin as int]),
{
    proof {
        lemma_bits(gpio_in, pin);
    }
    ((gpio_in >> (pin as u32)) & 1) as u8
}

/// A level as a reply byte.
pub open spec fn level_of(high: bool) -> u8 {
    if high {
        1
    } else {
        0
    }
}

// ---------------------------------------------------------------------------
// Requests
// ---------------------------------------------------------------------------

/// A request, decoded.
pub enum Request {
    Configure { pin: u8, output: bool },
    DriveHigh { pin: u8 },
    DriveLow { pin: u8 },
    Toggle { pin: u8 },
    Read { pin: u8 },
    BadPin,
    BadRequest,
}

/// The request that some bytes are: an opcode, the pin, and for `C` the
/// direction (0 = input, 1 = output).
pub open spec fn decode(req: Seq<u8>) -> Request {
    let configures = req.len() == 3 && req[0] == OP_CONFIGURE;
    let acts = req.len() == 2 && (req[0] == OP_SET || req[0] == OP_CLEAR || req[0] == OP_TOGGLE
        || req[0] == OP_READ);
    if !configures && !acts {
        Request::BadRequest
    } else if req[1] >= N_PINS {
        Request::BadPin
    } else if configures {
        if req[2] > 1 {
            Request::BadRequest
        } else {
            Request::Configure { pin: req[1], output: req[2] == 1 }
        }
    } else if req[0] == OP_SET {
        Request::DriveHigh { pin: req[1] }
    } else if req[0] == OP_CLEAR {
        Request::DriveLow { pin: req[1] }
    } else if req[0] == OP_TOGGLE {
        Request::Toggle { pin: req[1] }
    } else {
        Request::Read { pin: req[1] }
    }
}

/// The shadow, pin by pin.
#[verifier::ext_equal]
pub struct GpioView {
    /// Which pins are outputs.
    pub outputs: Seq<bool>,
    /// Which pins were last driven high.
    pub levels: Seq<bool>,
}

/// The GPIO capsule's state: software shadow of pin direction (1 = output) and
/// output level, one bit per pin.
#[derive(Debug, Clone, Copy, PartialEq, Eq, Structural)]
pub struct Gpio {
    pub dirs: u32,
    pub levels: u32,
}

impl View for Gpio {
    type V = GpioView;

    open spec fn view(&self) -> GpioView {
        GpioView { outputs: bits(self.dirs), levels: bits(self.levels) }
    }
}

/// All pins inputs, nothing driven.
pub open spec fn all_inputs() -> GpioView {
    GpioView {
        outputs: Seq::new(32, |i: int| false),
        levels: Seq::new(32, |i: int| false),
    }
}

impl Gpio {
    pub fn new() -> (g: Self)
        ensures
            g@ == all_inputs(),
    {
        let g = Gpio { dirs: 0, levels: 0 };
        assert forall|i: int| 0 <= i < 32 implies !#[trigger] bits(0)[i] by {
            let q = i as u32;
            assert((0u32 >> q) & 1 == 0) by (bit_vector);
        }
        assert(g@ =~= all_inputs());
        g
    }
}

/// What a request does, given the input register: the new shadow, the reply, and
/// the register writes.
pub open spec fn handled(g: GpioView, req: Seq<u8>, gpio_in: u32) -> (
    GpioView,
    Seq<u8>,
    Seq<RegWrite>,
) {
    match decode(req) {
        Request::BadRequest => (g, seq![GPIO_BAD_REQ], Seq::empty()),
        Request::BadPin => (g, seq![GPIO_BAD_PIN], Seq::empty()),
        Request::Configure { pin, output } => (
            GpioView {
                outputs: g.outputs.update(pin as int, output),
                levels: if output {
                    g.levels.update(pin as int, false)
                } else {
                    g.levels
                },
            },
            seq![GPIO_OK],
            configure_writes(pin, output),
        ),
        Request::DriveHigh { pin } => (
            GpioView { levels: g.levels.update(pin as int, true), ..g },
            seq![GPIO_OK],
            seq![RegWrite { addr: GPIO_OUT_W1TS, value: mask(pin) }],
        ),
        Request::DriveLow { pin } => (
            GpioView { levels: g.levels.update(pin as int, false), ..g },
            seq![GPIO_OK],
            seq![RegWrite { addr: GPIO_OUT_W1TC, value: mask(pin) }],
        ),
        Request::Toggle { pin } => {
            let high = !g.levels[pin as int];
            (
                GpioView { levels: g.levels.update(pin as int, high), ..g },
                seq![GPIO_OK, level_of(high)],
                seq![
                    RegWrite {
                        addr: if high {
                            GPIO_OUT_W1TS
                        } else {
                            GPIO_OUT_W1TC
                        },
                        value: mask(pin),
                    },
                ],
            )
        },
        Request::Read { pin } => (
            g,
            seq![
                GPIO_OK,
                level_of(
                    if g.outputs[pin as int] {
                        g.levels[pin as int]
                    } else {
                        bits(gpio_in)[pin as int]
                    },
                ),
            ],
            Seq::empty(),
        ),
    }
}

/// What comes of a request.
#[derive(Debug, Clone, Copy)]
pub struct Handled {
    /// The reply bytes; the first `len` (1 or 2) count, the rest is zero.
    pub reply: [u8; 2],
    pub len: usize,
    /// The register writes to perform.
    pub writes: WriteList,
}

impl Handled {
    fn new(status: u8, level: Option<u8>, writes: WriteList) -> (h: Self)
        requires
            writes.wf(),
        ensures
            h.writes == writes,
            h.len == if level is None {
                1int
            } else {
                2
            },
            h.reply@ == seq![
                status,
                match level {
                    Some(l) => l,
                    None => 0,
                },
            ],
    {
        let h = match level {
            Some(l) => Handled { reply: [status, l], len: 2, writes },
            None => Handled { reply: [status, 0], len: 1, writes },
        };
        assert(h.reply@ =~= seq![
            status,
            match level {
                Some(l) => l,
                None => 0,
            },
        ]);
        h
    }
}

/// Handle one request, given the input register. Outputs read the shadow, inputs
/// read the hardware.
pub fn gpio_handle(g: &mut Gpio, req: &[u8], gpio_in: u32) -> (h: Handled)
    ensures
        h.writes.wf(),
        1 <= h.len <= 2,
        h.len == 1 ==> h.reply@[1] == 0,
        final(g)@ == handled(old(g)@, req@, gpio_in).0,
        h.reply@.take(h.len as int) == handled(old(g)@, req@, gpio_in).1,
        h.writes@ == handled(old(g)@, req@, gpio_in).2,
{
    if req.is_empty() {
        return Handled::new(GPIO_BAD_REQ, None, WriteList::none());
    }
    let op: u8 = req[0];
    let ok_len = if op == OP_CONFIGURE {
        req.len() == 3
    } else if op == OP_SET || op == OP_CLEAR || op == OP_TOGGLE || op == OP_READ {
        req.len() == 2
    } else {
        false
    };
    if !ok_len {
        return Handled::new(GPIO_BAD_REQ, None, WriteList::none());
    }
    let pin: u8 = req[1];
    if pin > 31 {
        return Handled::new(GPIO_BAD_PIN, None, WriteList::none());
    }
    let bit: u32 = 1u32 << (pin as u32);
    proof {
        lemma_bits(g.dirs, pin);
        lemma_bits(g.levels, pin);
    }
    let mut writes = WriteList::none();
    if op == OP_CONFIGURE {
        let dir: u8 = req[2];
        if dir > 1 {
            return Handled::new(GPIO_BAD_REQ, None, writes);
        }
        if dir == 1 {
            g.dirs = g.dirs | bit;
            // Outputs drive low.
            g.levels = g.levels & !bit;
        } else {
            g.dirs = g.dirs & !bit;
        }
        Handled::new(GPIO_OK, None, configure(pin, dir == 1))
    } else if op == OP_SET {
        let w = set(pin);
        writes.push(w.addr, w.value);
        g.levels = g.levels | bit;
        assert(writes@ =~= handled(old(g)@, req@, gpio_in).2);
        Handled::new(GPIO_OK, None, writes)
    } else if op == OP_CLEAR {
        let w = clear(pin);
        writes.push(w.addr, w.value);
        g.levels = g.levels & !bit;
        assert(writes@ =~= handled(old(g)@, req@, gpio_in).2);
        Handled::new(GPIO_OK, None, writes)
    } else if op == OP_TOGGLE {
        let level: u8;
        if g.levels & bit != 0 {
            let w = clear(pin);
            writes.push(w.addr, w.value);
            g.levels = g.levels & !bit;
            level = 0;
        } else {
            let w = set(pin);
            writes.push(w.addr, w.value);
            g.levels = g.levels | bit;
            level = 1;
        }
        assert(writes@ =~= handled(old(g)@, req@, gpio_in).2);
        Handled::new(GPIO_OK, Some(level), writes)
    } else {
        let level: u8 = if g.dirs & bit != 0 {
            ((g.levels >> (pin as u32)) & 1) as u8
        } else {
            read_input(gpio_in, pin)
        };
        Handled::new(GPIO_OK, Some(level), writes)
    }
}

// ---------------------------------------------------------------------------
// Laws
// ---------------------------------------------------------------------------

/// The pin that a request is about.
pub open spec fn pin_of(r: Request) -> Option<u8> {
    match r {
        Request::Configure { pin, output } => Some(pin),
        Request::DriveHigh { pin } => Some(pin),
        Request::DriveLow { pin } => Some(pin),
        Request::Toggle { pin } => Some(pin),
        Request::Read { pin } => Some(pin),
        Request::BadPin => None,
        Request::BadRequest => None,
    }
}

/// A shadow of 32 pins.
pub open spec fn full(g: GpioView) -> bool {
    g.outputs.len() == 32 && g.levels.len() == 32
}

/// **A request touches only its pin.** Direction and level of every other pin
/// stay; a bad request or a read changes nothing and writes nothing.
pub proof fn law_request_touches_only_its_pin(
    g: GpioView,
    req: Seq<u8>,
    gpio_in: u32,
    other: int,
)
    requires
        full(g),
        0 <= other < 32,
    ensures
        ({
            let (g1, rep, writes) = handled(g, req, gpio_in);
            &&& full(g1)
            &&& pin_of(decode(req)) != Some(other as u8) ==> g1.outputs[other]
                == g.outputs[other] && g1.levels[other] == g.levels[other]
            &&& pin_of(decode(req)) is None || decode(req) is Read ==> g1 == g && writes.len()
                == 0
            &&& pin_of(decode(req)) is None <==> rep[0] != GPIO_OK
            &&& 1 <= rep.len() <= 2
        }),
{
}

/// **Only a read of an input pin depends on the input register.** Every other
/// request is handled the same whatever the register holds, so the value that it
/// is handed then is of no account.
pub proof fn law_inputs_matter_to_input_reads_only(
    g: GpioView,
    req: Seq<u8>,
    gpio_in: u32,
    other_in: u32,
)
    requires
        !(decode(req) matches Request::Read { pin } && !g.outputs[pin as int]),
    ensures
        handled(g, req, gpio_in) == handled(g, req, other_in),
{
}

/// **Outputs read back what they were driven to.** After a pin was made an output
/// it reads low; after set, clear or toggle it reads that level, whatever the
/// input register says.
pub proof fn law_output_reads_back(g: GpioView, pin: u8, gpio_in: u32)
    requires
        full(g),
        pin < N_PINS,
    ensures
        ({
            let read = seq![OP_READ, pin];
            let out = handled(g, seq![OP_CONFIGURE, pin, 1u8], gpio_in).0;
            let high = handled(g, seq![OP_SET, pin], gpio_in).0;
            let low = handled(g, seq![OP_CLEAR, pin], gpio_in).0;
            let (flipped, rep, writes) = handled(g, seq![OP_TOGGLE, pin], gpio_in);
            &&& handled(out, read, gpio_in).1 == seq![GPIO_OK, 0u8]
            &&& g.outputs[pin as int] ==> {
                &&& handled(high, read, gpio_in).1 == seq![GPIO_OK, 1u8]
                &&& handled(low, read, gpio_in).1 == seq![GPIO_OK, 0u8]
                &&& handled(flipped, read, gpio_in).1 == rep
            }
        }),
{
}

/// **Toggling twice restores the shadow,** and the two replies report opposite
/// levels.
pub proof fn law_toggle_twice(g: GpioView, pin: u8, gpio_in: u32)
    requires
        full(g),
        pin < N_PINS,
    ensures
        ({
            let (g1, rep1, writes1) = handled(g, seq![OP_TOGGLE, pin], gpio_in);
            let (g2, rep2, writes2) = handled(g1, seq![OP_TOGGLE, pin], gpio_in);
            &&& g2 == g
            &&& rep1[1] + rep2[1] == 1
        }),
{
    let (g1, rep1, writes1) = handled(g, seq![OP_TOGGLE, pin], gpio_in);
    let (g2, rep2, writes2) = handled(g1, seq![OP_TOGGLE, pin], gpio_in);
    assert(g2 =~= g);
}

/// The output and output-enable registers, bit by bit, after one write: a 1 bit
/// in a set register sets its pin, in a clear register it clears it.
pub open spec fn latched(hw: GpioView, w: RegWrite) -> GpioView {
    let m = bits(w.value);
    if w.addr == GPIO_OUT_W1TS {
        GpioView { levels: Seq::new(32, |i: int| hw.levels[i] || m[i]), ..hw }
    } else if w.addr == GPIO_OUT_W1TC {
        GpioView { levels: Seq::new(32, |i: int| hw.levels[i] && !m[i]), ..hw }
    } else if w.addr == GPIO_ENABLE_W1TS {
        GpioView { outputs: Seq::new(32, |i: int| hw.outputs[i] || m[i]), ..hw }
    } else if w.addr == GPIO_ENABLE_W1TC {
        GpioView { outputs: Seq::new(32, |i: int| hw.outputs[i] && !m[i]), ..hw }
    } else {
        hw
    }
}

/// The registers after a list of writes.
pub open spec fn performed(hw: GpioView, writes: Seq<RegWrite>) -> GpioView
    decreases writes.len(),
{
    if writes.len() == 0 {
        hw
    } else {
        latched(performed(hw, writes.drop_last()), writes.last())
    }
}

/// **The shadow tracks the hardware.** If the output and output-enable registers
/// agree with the shadow, they still do after a request's writes are performed.
pub proof fn law_shadow_tracks_hardware(g: GpioView, req: Seq<u8>, gpio_in: u32)
    requires
        full(g),
    ensures
        performed(g, handled(g, req, gpio_in).2) == handled(g, req, gpio_in).0,
{
    let (g1, rep, writes) = handled(g, req, gpio_in);
    reveal_with_fuel(performed, 4);
    match pin_of(decode(req)) {
        Some(pin) => {
            assert forall|i: int| 0 <= i < 32 implies bits(mask(pin))[i] == (i == pin) by {
                let p = pin as u32;
                let q = i as u32;
                assert(((1u32 << p) >> q) & 1 == if p == q {
                    1u32
                } else {
                    0u32
                }) by (bit_vector)
                    requires
                        p < 32,
                        q < 32,
                ;
            }
            if decode(req) is Configure {
                assert(writes.drop_last().drop_last() =~= writes.take(writes.len() - 2));
                assert(writes.drop_last().last() == writes[writes.len() - 2]);
            }
            assert(performed(g, writes) =~= g1);
        },
        None => {},
    }
}

/// **Bit `i` of a word is its binary digit `i`.**
pub proof fn law_bits_are_binary_digits(word: u32, i: int)
    requires
        0 <= i < 32,
    ensures
        bits(word).len() == 32,
        bits(word)[i] <==> (word as nat / vstd::arithmetic::power2::pow2(i as nat)) % 2 == 1,
{
    let q = i as u32;
    vstd::bits::lemma_u32_shr_is_div(word, q);
    let shifted = word >> q;
    assert(shifted & 1 == shifted % 2) by (bit_vector);
}

/// **A pin's mask is two to the pin.** So it holds that pin's bit and no other.
pub proof fn law_mask_is_a_power_of_two(pin: u8)
    requires
        pin < 32,
    ensures
        mask(pin) == vstd::arithmetic::power2::pow2(pin as nat),
        forall|i: int| 0 <= i < 32 ==> #[trigger] bits(mask(pin))[i] == (i == pin),
{
    let p = pin as u32;
    vstd::bits::lemma_u32_pow2_no_overflow(pin as nat);
    vstd::bits::lemma_u32_shl_is_mul(1, p);
    assert forall|i: int| 0 <= i < 32 implies #[trigger] bits(mask(pin))[i] == (i == pin) by {
        let q = i as u32;
        assert(((1u32 << p) >> q) & 1 == if p == q {
            1u32
        } else {
            0u32
        }) by (bit_vector)
            requires
                p < 32,
                q < 32,
        ;
    }
}

/// **An input reads the hardware.** The reply to a read of an input pin is OK and
/// that pin's binary digit in the input register. Nothing else happens.
pub proof fn law_input_reads_its_pin(g: GpioView, pin: u8, gpio_in: u32)
    requires
        pin < 32,
        !g.outputs[pin as int],
    ensures
        ({
            let (g1, rep, writes) = handled(g, seq![0x52u8, pin], gpio_in);
            &&& g1 == g
            &&& writes.len() == 0
            &&& rep.len() == 2
            &&& rep[0] == 0
            &&& rep[1] == (gpio_in as nat / vstd::arithmetic::power2::pow2(pin as nat)) % 2
        }),
{
    law_bits_are_binary_digits(gpio_in, pin as int);
}

/// **An output reads its shadow.** The reply to a read of an output pin is OK and
/// 1 exactly if the pin was last driven high. Nothing else happens.
pub proof fn law_output_reads_its_shadow(g: GpioView, pin: u8, gpio_in: u32)
    requires
        pin < 32,
        g.outputs[pin as int],
    ensures
        ({
            let (g1, rep, writes) = handled(g, seq![0x52u8, pin], gpio_in);
            &&& g1 == g
            &&& writes.len() == 0
            &&& rep.len() == 2
            &&& rep[0] == 0
            &&& rep[1] <= 1
            &&& rep[1] == 1 <==> g.levels[pin as int]
        }),
{
}

/// **Driving a pin sets its level and nothing else.** Set and clear answer OK and
/// write that pin's bit to the output set or clear register; toggle does what
/// leads to the other level, and reports it.
pub proof fn law_driving_a_pin(g: GpioView, pin: u8, gpio_in: u32)
    requires
        full(g),
        pin < 32,
    ensures
        ({
            let p = pin as int;
            let bit = vstd::arithmetic::power2::pow2(pin as nat);
            let (high, rep_s, writes_s) = handled(g, seq![0x53u8, pin], gpio_in);
            let (low, rep_c, writes_c) = handled(g, seq![0x63u8, pin], gpio_in);
            let (other, rep_t, writes_t) = handled(g, seq![0x54u8, pin], gpio_in);
            &&& high.levels[p] && !low.levels[p] && other.levels[p] != g.levels[p]
            &&& high.outputs == g.outputs && low.outputs == g.outputs && other.outputs == g.outputs
            &&& forall|i: int|
                0 <= i < 32 && i != p ==> #[trigger] high.levels[i] == g.levels[i] && low.levels[i]
                    == g.levels[i] && other.levels[i] == g.levels[i]
            &&& rep_s == seq![0u8] && rep_c == seq![0u8]
            &&& rep_t.len() == 2 && rep_t[0] == 0 && rep_t[1] <= 1
            &&& rep_t[1] == 1 <==> other.levels[p]
            &&& writes_s.len() == 1 && writes_c.len() == 1 && writes_t.len() == 1
            &&& writes_s[0].addr == 0x6000_4004 && writes_s[0].value == bit
            &&& writes_c[0].addr == 0x6000_4008 && writes_c[0].value == bit
            &&& writes_t[0] == if g.levels[p] {
                writes_c[0]
            } else {
                writes_s[0]
            }
        }),
{
    law_mask_is_a_power_of_two(pin);
}

/// **Configuring a pin.** Direction 1 makes it an output driven low, direction 0
/// an input whose level stays; the pin's IO MUX register selects the GPIO
/// function, with the input path on for an input only, then the pin's bit goes to
/// the output-enable set or clear register. No other pin changes.
pub proof fn law_configuring_a_pin(g: GpioView, pin: u8, gpio_in: u32)
    requires
        full(g),
        pin < 32,
    ensures
        ({
            let p = pin as int;
            let bit = vstd::arithmetic::power2::pow2(pin as nat);
            let (out, rep_o, writes_o) = handled(g, seq![0x43u8, pin, 1u8], gpio_in);
            let (inp, rep_i, writes_i) = handled(g, seq![0x43u8, pin, 0u8], gpio_in);
            &&& out.outputs[p] && !inp.outputs[p]
            &&& !out.levels[p] && inp.levels == g.levels
            &&& forall|i: int|
                0 <= i < 32 && i != p ==> #[trigger] out.outputs[i] == g.outputs[i]
                    && inp.outputs[i] == g.outputs[i] && out.levels[i] == g.levels[i]
            &&& full(out) && full(inp)
            &&& rep_o == seq![0u8] && rep_i == seq![0u8]
            &&& writes_o.len() == 3 && writes_i.len() == 2
            &&& writes_o[0].addr == 0x6000_8000 + 4 * pin && writes_o[0].value == 0x1000
            &&& writes_o[1].addr == 0x6000_4024 && writes_o[1].value == bit
            &&& writes_o[2].addr == 0x6000_4008 && writes_o[2].value == bit
            &&& writes_i[0].addr == 0x6000_8000 + 4 * pin && writes_i[0].value == 0x1200
            &&& writes_i[1].addr == 0x6000_4028 && writes_i[1].value == bit
        }),
{
    law_mask_is_a_power_of_two(pin);
    assert(MCU_SEL_GPIO == 0x1000 && FUN_IE == 0x200 && MCU_SEL_GPIO | FUN_IE == 0x1200)
        by (bit_vector);
}

/// **What is refused.** A request that is no opcode with its right length is a
/// bad request; with a pin above 31 it is a bad pin; a direction above 1 is a bad
/// request again. The answer is that one status byte, and nothing happens.
/// Everything else is answered OK.
pub proof fn law_what_is_refused(g: GpioView, req: Seq<u8>, gpio_in: u32)
    ensures
        ({
            let (g1, rep, writes) = handled(g, req, gpio_in);
            let shaped = (req.len() == 3 && req[0] == 0x43) || (req.len() == 2 && (req[0] == 0x53
                || req[0] == 0x63 || req[0] == 0x54 || req[0] == 0x52));
            let bad_pin = shaped && req[1] > 31;
            let bad_req = !shaped || (!bad_pin && req.len() == 3 && req[2] > 1);
            &&& bad_req ==> rep == seq![2u8]
            &&& bad_pin ==> rep == seq![1u8]
            &&& bad_req || bad_pin ==> g1 == g && writes.len() == 0
            &&& !bad_req && !bad_pin <==> rep[0] == 0
        }),
{
}

/// **At first all pins are inputs, and low.**
pub proof fn law_all_inputs(i: int)
    requires
        0 <= i < 32,
    ensures
        full(all_inputs()),
        !all_inputs().outputs[i],
        !all_inputs().levels[i],
{
}

} // verus!
