//! The firmware interface that the hypervisor offers to its guests.
//!
//! A guest asks for a service with an environment call: the extension in
//! `a7`, the function in `a6`, arguments from `a0` on.  Most services are
//! passed on to the firmware of the machine.  That call is not made here:
//! `sbi_firmware_call` says which call the machine firmware is owed, and the
//! handlers take what the firmware answered.

use crate::csr::{Csrs, HVIP_VSTIP, SIE_STIMER};
use crate::error::VmmResult;
use crate::trap::context::{TrapContext, A0, A1, A6, A7};
use vstd::prelude::*;

verus! {

/// The call succeeded.
pub const SBI_SUCCESS: u64 = 0;

/// The call is not supported: the value -2 as a 64-bit word.
pub const SBI_ERR_NOT_SUPPORTED: u64 = 0xffff_ffff_ffff_fffe;

/// Legacy extension: set the timer.
pub const SBI_SET_TIMER: u64 = 0;

/// Legacy extension: write a byte to the console.
pub const SBI_CONSOLE_PUTCHAR: u64 = 1;

/// Legacy extension: read a byte from the console.
pub const SBI_CONSOLE_GETCHAR: u64 = 2;

/// The base extension.
pub const SBI_EXTID_BASE: u64 = 0x10;

/// The timer extension.
pub const SBI_EXTID_TIME: u64 = 0x5449_4D45;

/// Base extension: the version of the interface.
pub const SBI_GET_SBI_SPEC_VERSION_FID: u64 = 0;

/// Base extension: the implementation id of the firmware.
pub const SBI_GET_SBI_IMPL_ID_FID: u64 = 1;

/// Base extension: the implementation version of the firmware.
pub const SBI_GET_SBI_IMPL_VERSION_FID: u64 = 2;

/// Base extension: whether an extension is there.
pub const SBI_PROBE_EXTENSION_FID: u64 = 3;

/// Base extension: the vendor id of the machine.
pub const SBI_GET_MVENDORID_FID: u64 = 4;

/// Base extension: the architecture id of the machine.
pub const SBI_GET_MARCHID_FID: u64 = 5;

/// Base extension: the implementation id of the machine.
pub const SBI_GET_MIMPID_FID: u64 = 6;

/// Timer extension: set the timer.
pub const SBI_SET_TIMER_FID: u64 = 0;

/// The two words that a firmware call returns.
#[derive(Copy, Clone, PartialEq, Eq, Debug, Structural)]
pub struct SbiRet {
    pub error: u64,
    pub value: u64,
}

/// What the firmware of the machine is asked to do for one call of a guest.
#[derive(Copy, Clone, PartialEq, Eq, Debug, Structural)]
pub enum FirmwareCall {
    /// Nothing: the answer to the guest is known without the firmware.
    Nothing,
    /// A call of the base extension with one argument; its two words go
    /// back to the guest as they are.
    Base { fid: u64, arg0: u64 },
    /// The implementation id of the firmware.
    SbiImplId,
    /// The implementation version of the firmware.
    SbiImplVersion,
    /// The vendor id of the machine.
    Mvendorid,
    /// The architecture id of the machine.
    Marchid,
    /// The implementation id of the machine.
    Mimpid,
    /// Write the byte to the console.
    ConsolePutchar(u64),
    /// Read a byte from the console.
    ConsoleGetchar,
    /// Program the timer of the machine to the given time.
    SetTimer(u64),
}

/// What the machine firmware is owed for the call `ext_id`, `fid` with the
/// first argument `arg0`, or `None` where the hypervisor does not know the
/// call.
pub open spec fn spec_firmware_call(ext_id: u64, fid: u64, arg0: u64) -> Option<FirmwareCall> {
    if ext_id == SBI_EXTID_BASE {
        if fid == SBI_GET_SBI_SPEC_VERSION_FID {
            Some(FirmwareCall::Base { fid, arg0: 0 })
        } else if fid == SBI_GET_SBI_IMPL_ID_FID {
            Some(FirmwareCall::SbiImplId)
        } else if fid == SBI_GET_SBI_IMPL_VERSION_FID {
            Some(FirmwareCall::SbiImplVersion)
        } else if fid == SBI_PROBE_EXTENSION_FID {
            Some(FirmwareCall::Base { fid, arg0 })
        } else if fid == SBI_GET_MVENDORID_FID {
            Some(FirmwareCall::Mvendorid)
        } else if fid == SBI_GET_MARCHID_FID {
            Some(FirmwareCall::Marchid)
        } else if fid == SBI_GET_MIMPID_FID {
            Some(FirmwareCall::Mimpid)
        } else {
            None
        }
    } else if ext_id == SBI_EXTID_TIME {
        if fid == SBI_SET_TIMER_FID {
            Some(FirmwareCall::SetTimer(arg0))
        } else {
            Some(FirmwareCall::Nothing)
        }
    } else if ext_id == SBI_CONSOLE_PUTCHAR {
        Some(FirmwareCall::ConsolePutchar(arg0))
    } else if ext_id == SBI_CONSOLE_GETCHAR {
        Some(FirmwareCall::ConsoleGetchar)
    } else if ext_id == SBI_SET_TIMER {
        Some(FirmwareCall::SetTimer(arg0))
    } else {
        None
    }
}

/// Whether the hypervisor knows the call `ext_id`, `fid`.
pub open spec fn spec_sbi_known(ext_id: u64, fid: u64) -> bool {
    spec_firmware_call(ext_id, fid, 0) is Some
}

/// Whether the call `ext_id`, `fid` sets the timer.
pub open spec fn spec_sets_timer(ext_id: u64, fid: u64) -> bool {
    ext_id == SBI_SET_TIMER || (ext_id == SBI_EXTID_TIME && fid == SBI_SET_TIMER_FID)
}

/// The answer to the guest for the call `ext_id`, `fid`, where the machine
/// firmware answered `answer`.
pub open spec fn spec_sbi_reply(ext_id: u64, fid: u64, answer: SbiRet) -> SbiRet {
    if ext_id == SBI_EXTID_BASE {
        spec_base_reply(fid, answer)
    } else if ext_id == SBI_EXTID_TIME && fid != SBI_SET_TIMER_FID {
        SbiRet { error: SBI_ERR_NOT_SUPPORTED, value: 0 }
    } else if ext_id == SBI_CONSOLE_GETCHAR {
        SbiRet { error: SBI_SUCCESS, value: answer.value }
    } else {
        SbiRet { error: SBI_SUCCESS, value: 0 }
    }
}

/// The answer to the guest for the function `fid` of the base extension:
/// the two words of the firmware where the call is passed on, success and
/// the value that the firmware holds elsewhere.
pub open spec fn spec_base_reply(fid: u64, answer: SbiRet) -> SbiRet {
    if fid == SBI_GET_SBI_SPEC_VERSION_FID || fid == SBI_PROBE_EXTENSION_FID {
        answer
    } else {
        SbiRet { error: SBI_SUCCESS, value: answer.value }
    }
}

/// The registers after the timer was set: no timer interrupt is pending for
/// the guest, and the timer interrupt of the hypervisor is enabled.
pub open spec fn spec_timer_armed(csrs: Csrs) -> Csrs {
    Csrs { hvip: csrs.hvip & !HVIP_VSTIP, sie: csrs.sie | SIE_STIMER, ..csrs }
}

/// Whether a timer interrupt is pending for the guest.
pub open spec fn spec_vstip(csrs: Csrs) -> bool {
    csrs.hvip & HVIP_VSTIP != 0
}

/// Whether the timer interrupt of the hypervisor is enabled.
pub open spec fn spec_stimer(csrs: Csrs) -> bool {
    csrs.sie & SIE_STIMER != 0
}

/// Which call the machine firmware is owed for the call that the guest made
/// with the registers of `ctx`, or `None` where the hypervisor does not know
/// the call.
pub fn sbi_firmware_call(ctx: &TrapContext) -> (call: Option<FirmwareCall>)
    ensures
        call == spec_firmware_call(ctx.x@[A7 as int], ctx.x@[A6 as int], ctx.x@[A0 as int]),
{
    let ext_id: u64 = ctx.x[A7];
    let fid: u64 = ctx.x[A6];
    let arg0: u64 = ctx.x[A0];
    if ext_id == SBI_EXTID_BASE {
        if fid == SBI_GET_SBI_SPEC_VERSION_FID {
            Some(FirmwareCall::Base { fid, arg0: 0 })
        } else if fid == SBI_GET_SBI_IMPL_ID_FID {
            Some(FirmwareCall::SbiImplId)
        } else if fid == SBI_GET_SBI_IMPL_VERSION_FID {
            Some(FirmwareCall::SbiImplVersion)
        } else if fid == SBI_PROBE_EXTENSION_FID {
            Some(FirmwareCall::Base { fid, arg0 })
        } else if fid == SBI_GET_MVENDORID_FID {
            Some(FirmwareCall::Mvendorid)
        } else if fid == SBI_GET_MARCHID_FID {
            Some(FirmwareCall::Marchid)
        } else if fid == SBI_GET_MIMPID_FID {
            Some(FirmwareCall::Mimpid)
        } else {
            None
        }
    } else if ext_id == SBI_EXTID_TIME {
        if fid == SBI_SET_TIMER_FID {
            Some(FirmwareCall::SetTimer(arg0))
        } else {
            Some(FirmwareCall::Nothing)
        }
    } else if ext_id == SBI_CONSOLE_PUTCHAR {
        Some(FirmwareCall::ConsolePutchar(arg0))
    } else if ext_id == SBI_CONSOLE_GETCHAR {
        Some(FirmwareCall::ConsoleGetchar)
    } else if ext_id == SBI_SET_TIMER {
        Some(FirmwareCall::SetTimer(arg0))
    } else {
        None
    }
}

/// Answers the call that the guest made with the registers of `ctx`, where
/// the machine firmware answered `answer` to the call that it was owed.
/// The error goes to `a0` and the value to `a1`; a call that sets the timer
/// arms the timer in `csrs`.
pub fn sbi_vs_handler(ctx: &mut TrapContext, csrs: &mut Csrs, answer: SbiRet) -> (r: VmmResult)
    requires
        spec_sbi_known(old(ctx).x@[A7 as int], old(ctx).x@[A6 as int]),
    ensures
        r is Ok,
        final(ctx).x@ == old(ctx).x@.update(
            A0 as int,
            spec_sbi_reply(old(ctx).x@[A7 as int], old(ctx).x@[A6 as int], answer).error,
        ).update(
            A1 as int,
            spec_sbi_reply(old(ctx).x@[A7 as int], old(ctx).x@[A6 as int], answer).value,
        ),
        final(ctx).sepc == old(ctx).sepc,
        final(ctx).sstatus == old(ctx).sstatus,
        final(ctx).hgatp == old(ctx).hgatp,
        *final(csrs) == if spec_sets_timer(old(ctx).x@[A7 as int], old(ctx).x@[A6 as int]) {
            spec_timer_armed(*old(csrs))
        } else {
            *old(csrs)
        },
{
    let ext_id: u64 = ctx.x[A7];
    let fid: u64 = ctx.x[A6];
    let sbi_ret: SbiRet;
    if ext_id == SBI_EXTID_BASE {
        sbi_ret = sbi_base_handler(fid, ctx, answer);
    } else if ext_id == SBI_EXTID_TIME {
        sbi_ret = sbi_time_handler(ctx.x[A0], fid, csrs);
    } else if ext_id == SBI_CONSOLE_PUTCHAR {
        sbi_ret = sbi_console_putchar_handler(ctx.x[A0]);
    } else if ext_id == SBI_CONSOLE_GETCHAR {
        sbi_ret = sbi_console_getchar_handler(answer.value);
    } else {
        sbi_ret = sbi_legacy_set_time(ctx.x[A0], csrs);
    }
    ctx.x[A0] = sbi_ret.error;
    ctx.x[A1] = sbi_ret.value;
    Ok(())
}

/// The answer to the guest for the function `fid` of the base extension,
/// where the machine firmware answered `answer`.
pub fn sbi_base_handler(fid: u64, ctx: &TrapContext, answer: SbiRet) -> (ret: SbiRet)
    requires
        spec_sbi_known(SBI_EXTID_BASE, fid),
    ensures
        ret == spec_base_reply(fid, answer),
{
    let mut sbi_ret = SbiRet { error: SBI_SUCCESS, value: 0 };
    if fid == SBI_GET_SBI_SPEC_VERSION_FID || fid == SBI_PROBE_EXTENSION_FID {
        sbi_ret = answer;
    } else {
        sbi_ret.value = answer.value;
    }
    sbi_ret
}

/// The answer to the guest after the byte `c` went to the console.
pub fn sbi_console_putchar_handler(c: u64) -> (ret: SbiRet)
    ensures
        ret == (SbiRet { error: SBI_SUCCESS, value: 0 }),
{
    SbiRet { error: SBI_SUCCESS, value: 0 }
}

/// The answer to the guest after `c` was read from the console.
pub fn sbi_console_getchar_handler(c: u64) -> (ret: SbiRet)
    ensures
        ret == (SbiRet { error: SBI_SUCCESS, value: c }),
{
    SbiRet { error: SBI_SUCCESS, value: c }
}

/// Arms the timer in `csrs`: clears the timer interrupt that is pending for
/// the guest and enables the timer interrupt of the hypervisor.
fn arm_timer(csrs: &mut Csrs)
    ensures
        *final(csrs) == spec_timer_armed(*old(csrs)),
        !spec_vstip(*final(csrs)),
        spec_stimer(*final(csrs)),
{
    let hvip: u64 = csrs.hvip;
    let sie: u64 = csrs.sie;
    assert((hvip & !0x40u64) & 0x40u64 == 0) by (bit_vector);
    assert((sie | 0x20u64) & 0x20u64 != 0) by (bit_vector);
    csrs.hvip = hvip & !HVIP_VSTIP;
    csrs.sie = sie | SIE_STIMER;
}

/// The timer extension.  Its one function sets the timer: once the machine
/// firmware has programmed the time `stime`, the timer is armed in `csrs`.
/// Every other function is answered as not supported and changes nothing.
pub fn sbi_time_handler(stime: u64, fid: u64, csrs: &mut Csrs) -> (ret: SbiRet)
    ensures
        fid == SBI_SET_TIMER_FID ==> {
            &&& ret == (SbiRet { error: SBI_SUCCESS, value: 0 })
            &&& *final(csrs) == spec_timer_armed(*old(csrs))
            &&& !spec_vstip(*final(csrs))
            &&& spec_stimer(*final(csrs))
        },
        fid != SBI_SET_TIMER_FID ==> {
            &&& ret == (SbiRet { error: SBI_ERR_NOT_SUPPORTED, value: 0 })
            &&& *final(csrs) == *old(csrs)
        },
{
    let mut sbi_ret = SbiRet { error: SBI_SUCCESS, value: 0 };
    if fid != SBI_SET_TIMER_FID {
        sbi_ret.error = SBI_ERR_NOT_SUPPORTED;
        return sbi_ret;
    }
    arm_timer(csrs);
    sbi_ret
}

/// The legacy call that sets the timer: once the machine firmware has
/// programmed the time `stime`, the timer is armed in `csrs`.
pub fn sbi_legacy_set_time(stime: u64, csrs: &mut Csrs) -> (ret: SbiRet)
    ensures
        ret == (SbiRet { error: SBI_SUCCESS, value: 0 }),
        *final(csrs) == spec_timer_armed(*old(csrs)),
        !spec_vstip(*final(csrs)),
        spec_stimer(*final(csrs)),
{
    arm_timer(csrs);
    SbiRet { error: SBI_SUCCESS, value: 0 }
}

} // verus!
