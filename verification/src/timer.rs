//! The 1 kHz timer, polled.
//!
//! Timer Group 0 runs off the 80 MHz APB clock. Timer 0 is configured with a
//! divider of 80 (1 MHz timer clock), counts upward from 0 with autoreload, and
//! raises an alarm every 1000 ticks: 1 kHz nominal.

use vstd::prelude::*;

use crate::mmio::RegWrite;

verus! {

pub const TIMG0_BASE: u32 = 0x6001_F000;

pub const T0CONFIG: u32 = TIMG0_BASE + 0x00;

pub const T0ALARMLO: u32 = TIMG0_BASE + 0x10;

pub const T0ALARMHI: u32 = TIMG0_BASE + 0x14;

pub const T0LOADLO: u32 = TIMG0_BASE + 0x18;

pub const T0LOADHI: u32 = TIMG0_BASE + 0x1C;

pub const T0LOAD: u32 = TIMG0_BASE + 0x20;

pub const INT_RAW_TIMERS: u32 = TIMG0_BASE + 0x74;

pub const INT_CLR_TIMERS: u32 = TIMG0_BASE + 0x7C;

/// T0CONFIG fields: EN bit 31, INCREASE bit 30, AUTORELOAD bit 29, DIVIDER bits
/// [28:13], ALARM_EN bit 10. USE_XTAL bit 9 = 0 selects APB.
pub const CFG_EN: u32 = 1 << 31;

pub const CFG_INCREASE: u32 = 1 << 30;

pub const CFG_AUTORELOAD: u32 = 1 << 29;

/// 80 MHz / 80 = 1 MHz timer clock.
pub const CFG_DIVIDER_80: u32 = 80 << 13;

pub const CFG_ALARM_EN: u32 = 1 << 10;

/// Alarm value for 1 kHz at a 1 MHz timer clock.
pub const ALARM_USEC: u32 = 1000;

/// Up-counting with autoreload at 1 MHz, not running.
pub const CFG_STOPPED: u32 = CFG_INCREASE | CFG_AUTORELOAD | CFG_DIVIDER_80;

/// Running T0CONFIG: EN|INCREASE|AUTORELOAD | DIVIDER=80 | ALARM_EN.
pub const CFG_RUNNING: u32 = CFG_EN | CFG_INCREASE | CFG_AUTORELOAD | CFG_DIVIDER_80 | CFG_ALARM_EN;

/// The APB clock in Hz.
pub const APB_HZ: u32 = 80_000_000;

/// The writes that bring up the tick, as address and value.
pub open spec fn bring_up() -> Seq<RegWrite> {
    seq![
        // Configure Timer 0 while stopped.
        RegWrite { addr: T0CONFIG, value: CFG_STOPPED },
        RegWrite { addr: T0LOADLO, value: 0 },
        RegWrite { addr: T0LOADHI, value: 0 },
        // Any write latches the load value.
        RegWrite { addr: T0LOAD, value: 1 },
        RegWrite { addr: T0ALARMLO, value: ALARM_USEC },
        RegWrite { addr: T0ALARMHI, value: 0 },
        // Clear any stale T0 interrupt.
        RegWrite { addr: INT_CLR_TIMERS, value: 1 },
        // Start the timer and arm the first alarm.
        RegWrite { addr: T0CONFIG, value: CFG_RUNNING },
    ]
}

/// Bring up the 1 kHz tick: the register writes, in order.
///
/// Configures Timer 0 while stopped, then starts it with the first alarm armed.
/// No interrupt line is set up: the tick is polled via [`poll_tick`].
pub fn init() -> (writes: [RegWrite; 8])
    ensures
        writes@ == bring_up(),
{
    let writes = [
        RegWrite { addr: T0CONFIG, value: CFG_STOPPED },
        RegWrite { addr: T0LOADLO, value: 0 },
        RegWrite { addr: T0LOADHI, value: 0 },
        RegWrite { addr: T0LOAD, value: 1 },
        RegWrite { addr: T0ALARMLO, value: ALARM_USEC },
        RegWrite { addr: T0ALARMHI, value: 0 },
        RegWrite { addr: INT_CLR_TIMERS, value: 1 },
        RegWrite { addr: T0CONFIG, value: CFG_RUNNING },
    ];
    assert(writes@ =~= bring_up());
    writes
}

/// Check for a timer tick, given the raw interrupt status
/// ([`INT_RAW_TIMERS`]). `Some` exactly if Timer 0's alarm fired; the writes are
/// to be performed then.
///
/// They clear the peripheral interrupt and re-arm `ALARM_EN`, which self-clears
/// when the alarm fires even with `AUTORELOAD` set. Without the re-arm the timer
/// would fire exactly once.
pub fn poll_tick(raw: u32) -> (tick: Option<[RegWrite; 2]>)
    ensures
        match tick {
            Some(writes) => raw % 2 == 1 && writes@ == seq![
                RegWrite { addr: INT_CLR_TIMERS, value: 1 },
                RegWrite { addr: T0CONFIG, value: CFG_RUNNING },
            ],
            None => raw % 2 == 0,
        },
{
    assert(raw & 1 == raw % 2) by (bit_vector);
    if raw & 1 != 0 {
        let writes = [
            RegWrite { addr: INT_CLR_TIMERS, value: 1 },
            RegWrite { addr: T0CONFIG, value: CFG_RUNNING },
        ];
        assert(writes@ =~= seq![
            RegWrite { addr: INT_CLR_TIMERS, value: 1 },
            RegWrite { addr: T0CONFIG, value: CFG_RUNNING },
        ]);
        Some(writes)
    } else {
        None
    }
}

/// **The tick is 1 kHz.** The running configuration enables the timer, counts
/// up, reloads, arms the alarm and selects the APB clock; its divider is 80, and
/// 80 MHz divided by it and by the alarm value is 1000 per second. The stopped
/// configuration differs from it only in not running and not being armed.
pub proof fn law_tick_is_one_khz()
    ensures
        CFG_RUNNING & CFG_EN == CFG_EN,
        CFG_RUNNING & CFG_INCREASE == CFG_INCREASE,
        CFG_RUNNING & CFG_AUTORELOAD == CFG_AUTORELOAD,
        CFG_RUNNING & CFG_ALARM_EN == CFG_ALARM_EN,
        (CFG_RUNNING >> 9) & 1 == 0,
        (CFG_RUNNING >> 13) & 0xFFFF == 80,
        APB_HZ as int / ((CFG_RUNNING >> 13) & 0xFFFF) as int / ALARM_USEC as int == 1000,
        CFG_STOPPED | CFG_EN | CFG_ALARM_EN == CFG_RUNNING,
        CFG_STOPPED & CFG_EN == 0,
        CFG_STOPPED & CFG_ALARM_EN == 0,
{
    assert(CFG_RUNNING & CFG_EN == CFG_EN) by (bit_vector);
    assert(CFG_RUNNING & CFG_INCREASE == CFG_INCREASE) by (bit_vector);
    assert(CFG_RUNNING & CFG_AUTORELOAD == CFG_AUTORELOAD) by (bit_vector);
    assert(CFG_RUNNING & CFG_ALARM_EN == CFG_ALARM_EN) by (bit_vector);
    assert((CFG_RUNNING >> 9) & 1 == 0) by (bit_vector);
    assert((CFG_RUNNING >> 13) & 0xFFFF == 80) by (bit_vector);
    assert(CFG_STOPPED | CFG_EN | CFG_ALARM_EN == CFG_RUNNING) by (bit_vector);
    assert(CFG_STOPPED & CFG_EN == 0) by (bit_vector);
    assert(CFG_STOPPED & CFG_ALARM_EN == 0) by (bit_vector);
}

} // verus!
