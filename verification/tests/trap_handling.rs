use hypocaust::address::{PhysAddr, PhysPageNum, VirtAddr};
use hypocaust::constants::TRAMPOLINE;
use hypocaust::csr::Csrs;
use hypocaust::device_emu::plic::{PlicState, PlicWrite};
use hypocaust::error::VmmError;
use hypocaust::guest::pmap::{
    decode_inst, decode_inst_at_addr, guest_to_host, two_stage_translation, Instruction,
};
use hypocaust::guest::sbi::{FirmwareCall, SbiRet};
use hypocaust::hypervisor::HostVmm;
use hypocaust::memory::PhysMemory;
use hypocaust::mm::map_area::{MapArea, MapPermission, MapType};
use hypocaust::mm::memory_set::{GuestMemorySet, HostMemorySet};
use hypocaust::trap::context::TrapContext;
use hypocaust::trap::{
    claim_address, disable_timer_interrupt, enable_timer_interrupt, guest_page_fault_handler,
    handle_internal_vmm_error, handle_irq, init, maybe_forward_interrupt, privileged_inst_handler,
    set_kernel_trap_entry, set_user_trap_entry, switch_to_guest, trap_cause, trap_from_kernel,
    trap_handler, trap_request, ErrorPolicy, FatalTrap, HardwareReply, HardwareRequest, KernelTrap,
    TrapCause, TrapOutcome,
};

const PLIC_BASE: u64 = 0xc00_0000;
const GUEST_PA: u64 = 0x8800_0000;
const GUEST_VA: u64 = 0x8000_0000;
const INTERRUPT: u64 = 0x8000_0000_0000_0000;

fn zero_csrs() -> Csrs {
    Csrs {
        satp: 0,
        scause: 0,
        stval: 0,
        stvec: 0,
        sie: 0,
        hgatp: 0,
        hvip: 0,
        htval: 0,
        htinst: 0,
        vsatp: 0,
        vsstatus: 0,
        vsip: 0,
        vsie: 0,
        vstvec: 0,
        vsepc: 0,
        vscause: 0,
    }
}

fn no_reply() -> HardwareReply {
    HardwareReply { firmware: SbiRet { error: 0, value: 0 }, irq: 0 }
}

/// A guest whose memory `[GUEST_VA, +len)` lies at `[GUEST_PA, +len)`.
fn guest(len: u64) -> GuestMemorySet {
    let mut gpm = GuestMemorySet::new_guest_bare(PhysPageNum(0x80404));
    gpm.push(MapArea::new(
        VirtAddr(GUEST_VA),
        VirtAddr(GUEST_VA + len),
        Some(PhysAddr(GUEST_PA)),
        Some(PhysAddr(GUEST_PA + len)),
        MapType::Linear,
        MapPermission::from_bits(0x1e),
    ));
    gpm
}

fn vmm(gpm: GuestMemorySet) -> HostVmm {
    let mut vmm = HostVmm::new(HostMemorySet::new_bare(PhysPageNum(0x80400)));
    assert_eq!(vmm.add_guest(gpm), 0);
    vmm.host_plic = Some(PlicState::new(PLIC_BASE, 4));
    vmm
}

fn put64(mem: &mut PhysMemory, pa: u64, value: u64) {
    assert!(mem.write(pa, &value.to_le_bytes(), 0, 8));
}

fn put32(mem: &mut PhysMemory, pa: u64, value: u32) {
    assert!(mem.write(pa, &value.to_le_bytes(), 0, 4));
}

/// An entry that leads to the guest physical address `gpa` with `flags`.
fn pte(gpa: u64, flags: u64) -> u64 {
    (gpa >> 12) << 10 | flags
}

/// Guest memory of 16 pages with a three-level table at its start:
/// guest virtual `0x4000_1000` leads to guest physical page 5.
fn paged_memory() -> (PhysMemory, u64) {
    let mut mem = PhysMemory::new(GUEST_PA, vec![0u8; 0x10000]).unwrap();
    let root = GUEST_VA;
    put64(&mut mem, GUEST_PA + 8, pte(GUEST_VA + 0x1000, 0x01));
    put64(&mut mem, GUEST_PA + 0x1000, pte(GUEST_VA + 0x2000, 0x01));
    put64(&mut mem, GUEST_PA + 0x2000 + 8, pte(GUEST_VA + 0x5000, 0xcf));
    put64(&mut mem, GUEST_PA + 0x2000 + 16, pte(GUEST_VA + 0x6000, 0x05));
    put64(&mut mem, GUEST_PA + 0x2000 + 24, pte(GUEST_VA + 0x6000, 0xce));
    put64(&mut mem, GUEST_PA + 0x2000 + 32, pte(0x7000_0000, 0xcf));
    put64(&mut mem, GUEST_PA + 16, pte(0x8000_0000, 0xcf));
    put64(&mut mem, GUEST_PA + 24, pte(0x8020_0000, 0xcf));
    put64(&mut mem, GUEST_PA + 0x1000 + 8, pte(0x8020_0000, 0xcf));
    put64(&mut mem, GUEST_PA + 0x1000 + 16, pte(0x8000_1000, 0xcf));
    let vsatp = 8u64 << 60 | root >> 12;
    (mem, vsatp)
}

#[test]
fn causes_are_told_apart() {
    assert_eq!(trap_cause(8), TrapCause::UserEnvCall);
    assert_eq!(trap_cause(10), TrapCause::VirtualSupervisorEnvCall);
    assert_eq!(trap_cause(22), TrapCause::VirtualInstruction);
    assert_eq!(trap_cause(2), TrapCause::IllegalInstruction);
    assert_eq!(trap_cause(20), TrapCause::InstructionGuestPageFault);
    assert_eq!(trap_cause(21), TrapCause::LoadGuestPageFault);
    assert_eq!(trap_cause(23), TrapCause::StoreGuestPageFault);
    assert_eq!(trap_cause(INTERRUPT | 9), TrapCause::SupervisorExternal);
    assert_eq!(trap_cause(9), TrapCause::Other);
    assert_eq!(trap_cause(INTERRUPT | 10), TrapCause::Other);
    assert_eq!(trap_cause(INTERRUPT | 5), TrapCause::Other);
    assert_eq!(trap_cause(0), TrapCause::Other);
    assert_eq!(trap_cause(0x4000_0000_0000_000a), TrapCause::Other);
    assert_eq!(trap_cause(0x7fff_ffff_ffff_ffff), TrapCause::Other);
}

#[test]
fn trap_vectors() {
    let mut csrs = zero_csrs();
    init(&mut csrs, 0x8020_1000, 0x8020_10a4);
    assert_eq!(csrs.stvec, TRAMPOLINE + 0xa4);
    set_user_trap_entry(&mut csrs);
    assert_eq!(csrs.stvec, TRAMPOLINE);
    set_kernel_trap_entry(&mut csrs, 0x8020_1000, 0x8020_1fff);
    assert_eq!(csrs.stvec, u64::MAX);
    let mut expected = zero_csrs();
    expected.stvec = u64::MAX;
    assert_eq!(csrs, expected);
}

#[test]
fn timer_interrupt_switch() {
    let mut csrs = zero_csrs();
    csrs.sie = 0x202;
    enable_timer_interrupt(&mut csrs);
    assert_eq!(csrs.sie, 0x222);
    enable_timer_interrupt(&mut csrs);
    assert_eq!(csrs.sie, 0x222);
    disable_timer_interrupt(&mut csrs);
    assert_eq!(csrs.sie, 0x202);
}

#[test]
fn instructions_are_decoded() {
    assert_eq!(decode_inst(0x0005_2503), (4, Some(Instruction::Lw { rd: 10 })));
    assert_eq!(decode_inst(0x00b5_2223), (4, Some(Instruction::Sw { rs2: 11 })));
    assert_eq!(decode_inst(0x0005_3503), (4, None));
    assert_eq!(decode_inst(0x0000_0073), (4, None));
    assert_eq!(decode_inst(0x4108), (2, Some(Instruction::Lw { rd: 10 })));
    assert_eq!(decode_inst(0xc10c), (2, Some(Instruction::Sw { rs2: 11 })));
    assert_eq!(decode_inst(0x0001), (2, None));
    assert_eq!(decode_inst(0x8082), (2, None));
    assert_eq!(decode_inst(0xffff_4108), (2, Some(Instruction::Lw { rd: 10 })));
}

#[test]
fn instructions_are_fetched_by_their_length() {
    let mut mem = PhysMemory::new(0x1000, vec![0u8; 8]).unwrap();
    put32(&mut mem, 0x1000, 0x0005_2503);
    put32(&mut mem, 0x1004, 0x2503_4108);
    assert_eq!(decode_inst_at_addr(&mem, 0x1000), Some((4, Some(Instruction::Lw { rd: 10 }))));
    assert_eq!(decode_inst_at_addr(&mem, 0x1004), Some((2, Some(Instruction::Lw { rd: 10 }))));
    assert_eq!(decode_inst_at_addr(&mem, 0x1006), None);
    assert_eq!(decode_inst_at_addr(&mem, 0x1008), None);
    assert_eq!(decode_inst_at_addr(&mem, 0xfff), None);
    assert_eq!(decode_inst_at_addr(&mem, 0x1002), Some((2, None)));
}

#[test]
fn second_stage_takes_the_first_area_that_holds_the_page() {
    let mut gpm = guest(0x2000);
    gpm.push(MapArea::new(
        VirtAddr(GUEST_VA + 0x1000),
        VirtAddr(GUEST_VA + 0x4000),
        Some(PhysAddr(0x9000_1000)),
        Some(PhysAddr(0x9000_4000)),
        MapType::Linear,
        MapPermission::from_bits(2),
    ));
    assert_eq!(guest_to_host(&gpm, GUEST_VA + 0x123), Some(GUEST_PA + 0x123));
    assert_eq!(guest_to_host(&gpm, GUEST_VA + 0x1fff), Some(GUEST_PA + 0x1fff));
    assert_eq!(guest_to_host(&gpm, GUEST_VA + 0x2000), Some(0x9000_2000));
    assert_eq!(guest_to_host(&gpm, GUEST_VA + 0x4000), None);
    assert_eq!(guest_to_host(&gpm, GUEST_VA - 1), None);
    for gpa in [GUEST_VA, GUEST_VA + 0x1abc, GUEST_VA + 0x3ffd] {
        let pte = gpm.page_table.translate(VirtAddr(gpa).floor()).unwrap();
        assert_eq!(guest_to_host(&gpm, gpa), Some(pte.ppn().0 * 4096 + gpa % 4096));
    }
}

#[test]
fn two_stages_without_guest_paging() {
    let gpm = guest(0x10000);
    let mem = PhysMemory::new(GUEST_PA, vec![0u8; 0]).unwrap();
    assert_eq!(two_stage_translation(0, GUEST_VA + 0x2468, 0, &gpm, &mem), Some(GUEST_PA + 0x2468));
    assert_eq!(two_stage_translation(0, GUEST_VA + 0x10000, 0, &gpm, &mem), None);
    assert_eq!(two_stage_translation(0, 0, 0x0fff_ffff_ffff_ffff, &gpm, &mem), None);
    assert_eq!(two_stage_translation(0, GUEST_VA, 9u64 << 60, &gpm, &mem), None);
    assert_eq!(two_stage_translation(0, GUEST_VA, 1u64 << 60, &gpm, &mem), None);
}

#[test]
fn two_stages_with_guest_paging() {
    let gpm = guest(0x10000);
    let (mem, vsatp) = paged_memory();
    assert_eq!(
        two_stage_translation(0, 0x4000_1abc, vsatp, &gpm, &mem),
        Some(GUEST_PA + 0x5abc)
    );
    assert_eq!(two_stage_translation(0, 0x4000_0abc, vsatp, &gpm, &mem), None);
    assert_eq!(two_stage_translation(0, 0x4000_2abc, vsatp, &gpm, &mem), None);
    assert_eq!(two_stage_translation(0, 0x4000_3abc, vsatp, &gpm, &mem), None);
    assert_eq!(two_stage_translation(0, 0x4000_4abc, vsatp, &gpm, &mem), None);
    assert_eq!(two_stage_translation(0, 0x0000_1abc, vsatp, &gpm, &mem), None);
    assert_eq!(
        two_stage_translation(0, 0x8000_4567, vsatp, &gpm, &mem),
        Some(GUEST_PA + 0x4567)
    );
    assert_eq!(two_stage_translation(0, 0xc000_0000, vsatp, &gpm, &mem), None);
    assert_eq!(two_stage_translation(0, 0x4020_0000, vsatp, &gpm, &mem), None);
    assert_eq!(two_stage_translation(0, 0x4040_0000, vsatp, &gpm, &mem), None);
    let outside = 8u64 << 60 | 0x90000;
    assert_eq!(two_stage_translation(0, 0x4000_1abc, outside, &gpm, &mem), None);
    let small = PhysMemory::new(GUEST_PA, vec![0u8; 0x2000]).unwrap();
    assert_eq!(two_stage_translation(0, 0x4000_1abc, vsatp, &gpm, &small), None);
}

#[test]
fn guest_takes_interrupt_in_supervisor_mode_with_interrupts_enabled() {
    let mut vmm = vmm(guest(0x1000));
    let mut ctx = TrapContext::new(0x8020_0040, 0);
    let mut csrs = zero_csrs();
    csrs.scause = INTERRUPT | 9;
    csrs.vsstatus = 0x102;
    csrs.vstvec = 0x8020_0800;
    assert_eq!(
        trap_request(&vmm, &ctx, &csrs),
        HardwareRequest::PlicClaim { addr: PLIC_BASE + 0x20_1004 }
    );
    let mem = PhysMemory::new(GUEST_PA, vec![]).unwrap();
    let reply = HardwareReply { firmware: SbiRet { error: 0, value: 0 }, irq: 10 };
    let outcome = trap_handler(&mut vmm, &mut ctx, &mut csrs, &mem, reply);
    assert_eq!(outcome, TrapOutcome::Resume { write: None });
    assert_eq!(vmm.host_plic.as_ref().unwrap().claim_complete, vec![0, 10, 0, 0]);
    assert!(vmm.irq_pending);
    assert_eq!(csrs.vsepc, 0x8020_0040);
    assert_eq!(csrs.vscause, 0x8000_0000_0000_0009);
    assert_eq!(ctx.sepc, 0x8020_0800);
}

#[test]
fn interrupt_waits_while_the_guest_takes_none() {
    let mut vmm = vmm(guest(0x1000));
    let mut ctx = TrapContext::new(0x8020_0040, 0);
    let mut csrs = zero_csrs();
    csrs.scause = INTERRUPT | 9;
    csrs.vsstatus = 0x100;
    csrs.vsip = 0x222;
    csrs.vsie = 0x222;
    csrs.vstvec = 0x8020_0800;
    let before = csrs;
    handle_irq(&mut vmm, &mut ctx, 7);
    maybe_forward_interrupt(&mut vmm, &mut ctx, &mut csrs);
    assert!(vmm.irq_pending);
    assert_eq!(ctx.sepc, 0x8020_0040);
    assert_eq!(csrs, before);
    csrs.vsstatus = 0x002;
    csrs.vsip = 0x20;
    csrs.vsie = 0x200;
    let before = csrs;
    maybe_forward_interrupt(&mut vmm, &mut ctx, &mut csrs);
    assert_eq!(ctx.sepc, 0x8020_0040);
    assert_eq!(csrs, before);
    csrs.vsie = 0x220;
    maybe_forward_interrupt(&mut vmm, &mut ctx, &mut csrs);
    assert_eq!(ctx.sepc, 0x8020_0800);
    assert_eq!(csrs.vsepc, 0x8020_0040);
    assert_eq!(csrs.vscause, INTERRUPT | 9);
}

#[test]
fn nothing_is_forwarded_unless_an_interrupt_waits() {
    let mut vmm = vmm(guest(0x1000));
    let mut ctx = TrapContext::new(0x8020_0040, 0);
    let mut csrs = zero_csrs();
    csrs.vsstatus = 0x102;
    csrs.vstvec = 0x8020_0800;
    maybe_forward_interrupt(&mut vmm, &mut ctx, &mut csrs);
    assert_eq!(ctx.sepc, 0x8020_0040);
    assert_eq!(csrs.vsepc, 0);
}

#[test]
fn claim_register_of_the_current_guest() {
    let mut vmm = vmm(guest(0x1000));
    assert_eq!(claim_address(&vmm), Some(0xc20_1004));
    vmm.guest_id = 1;
    assert_eq!(claim_address(&vmm), Some(0xc20_3004));
    vmm.host_plic = Some(PlicState::new(u64::MAX - 0x20_3003, 4));
    assert_eq!(claim_address(&vmm), None);
    vmm.host_plic = Some(PlicState::new(u64::MAX - 0x20_3004, 4));
    assert_eq!(claim_address(&vmm), Some(u64::MAX));
    vmm.host_plic = None;
    assert_eq!(claim_address(&vmm), None);
}

#[test]
fn claim_is_read_by_a_load_whose_instruction_is_fetched() {
    let mut vmm = vmm(guest(0x10000));
    let (mut mem, vsatp) = paged_memory();
    put32(&mut mem, GUEST_PA + 0x5abc, 0x0007_a603);
    let mut ctx = TrapContext::new(0x4000_1abc, 0);
    let mut csrs = zero_csrs();
    csrs.scause = INTERRUPT | 9;
    trap_handler(
        &mut vmm,
        &mut ctx,
        &mut csrs,
        &mem,
        HardwareReply { firmware: SbiRet { error: 0, value: 0 }, irq: 10 },
    );
    assert_eq!(ctx.sepc, 0x4000_1abc);
    csrs.scause = 21;
    csrs.htval = 0xc20_1004 >> 2;
    csrs.htinst = 0;
    csrs.stval = 0xc20_1004;
    csrs.vsatp = vsatp;
    assert_eq!(trap_request(&vmm, &ctx, &csrs), HardwareRequest::Nothing);
    let before = csrs;
    let outcome = trap_handler(&mut vmm, &mut ctx, &mut csrs, &mem, no_reply());
    assert_eq!(outcome, TrapOutcome::Resume { write: None });
    assert_eq!(ctx.x[12], 10);
    assert_eq!(ctx.sepc, 0x4000_1ac0);
    assert_eq!(vmm.host_plic.as_ref().unwrap().claim_complete, vec![0, 0, 0, 0]);
    assert_eq!(csrs, before);
    assert!(vmm.irq_pending);
}

#[test]
fn complete_and_threshold_go_on_to_the_machine() {
    let mut vmm = vmm(guest(0x10000));
    let mem = PhysMemory::new(GUEST_PA, vec![]).unwrap();
    let mut ctx = TrapContext::new(0x8000_0000, 0);
    ctx.x[11] = 0x1_0000_000a;
    handle_irq(&mut vmm, &mut ctx, 10);
    let mut csrs = zero_csrs();
    csrs.scause = 23;
    csrs.htval = 0xc20_1004 >> 2;
    csrs.stval = 0xc20_1004;
    csrs.htinst = 0x00b0_0023 | 0x2000;
    let outcome = trap_handler(&mut vmm, &mut ctx, &mut csrs, &mem, no_reply());
    assert_eq!(
        outcome,
        TrapOutcome::Resume { write: Some(PlicWrite { offset: 0x20_1004, value: 10 }) }
    );
    assert_eq!(ctx.sepc, 0x8000_0004);
    assert_eq!(vmm.host_plic.as_ref().unwrap().claim_complete, vec![0, 0, 0, 0]);
    csrs.htval = 0xc20_1000 >> 2;
    csrs.stval = 0xc20_1000;
    csrs.htinst = 0x00b0_2021;
    ctx.x[11] = 3;
    let r = guest_page_fault_handler(&mut vmm, &mut ctx, &csrs, &mem);
    assert_eq!(r, Ok(Some(PlicWrite { offset: 0x20_1000, value: 3 })));
    assert_eq!(ctx.sepc, 0x8000_0006);
    assert_eq!(vmm.host_plic.as_ref().unwrap().threshold, vec![0, 3, 0, 0]);
    csrs.htinst = 0x0000_2501;
    ctx.x[10] = 99;
    assert_eq!(guest_page_fault_handler(&mut vmm, &mut ctx, &csrs, &mem), Ok(None));
    assert_eq!(ctx.x[10], 3);
    assert_eq!(ctx.sepc, 0x8000_0008);
}

#[test]
fn register_zero_stays_zero() {
    let mut plic = PlicState::new(PLIC_BASE, 2);
    plic.claim_complete[1] = 5;
    let mut ctx = TrapContext::new(0, 0);
    assert_eq!(plic.handle_plic_access(&mut ctx, 0xc20_1004, Instruction::Lw { rd: 0 }), Ok(None));
    assert_eq!(ctx.x[0], 0);
    assert_eq!(plic.claim_complete, vec![0, 0]);
}

#[test]
fn page_fault_errors() {
    let mut vmm = vmm(guest(0x10000));
    let (mut mem, vsatp) = paged_memory();
    let mut ctx = TrapContext::new(0x4000_1abc, 0);
    let mut csrs = zero_csrs();
    csrs.scause = 21;
    csrs.vsatp = vsatp;
    csrs.htval = 0x1000_0000 >> 2;
    csrs.stval = 0x1000_0000;
    assert_eq!(
        trap_handler(&mut vmm, &mut ctx, &mut csrs, &mem, no_reply()),
        TrapOutcome::Failed(VmmError::DeviceNotFound)
    );
    csrs.htval = 0xc20_1004 >> 2;
    csrs.stval = 0xc20_1004;
    csrs.htinst = 0x3000;
    assert_eq!(
        guest_page_fault_handler(&mut vmm, &mut ctx, &csrs, &mem),
        Err(VmmError::PseudoInst)
    );
    csrs.htinst = 0x3020;
    assert_eq!(
        guest_page_fault_handler(&mut vmm, &mut ctx, &csrs, &mem),
        Err(VmmError::PseudoInst)
    );
    csrs.htinst = 0;
    assert_eq!(
        guest_page_fault_handler(&mut vmm, &mut ctx, &csrs, &mem),
        Err(VmmError::DecodeInstError)
    );
    ctx.sepc = 0x4000_0abc;
    assert_eq!(
        guest_page_fault_handler(&mut vmm, &mut ctx, &csrs, &mem),
        Err(VmmError::TranslationError)
    );
    ctx.sepc = 0x4000_1abc;
    put32(&mut mem, GUEST_PA + 0x5abc, 0x0007_a603);
    csrs.stval = 0xc00_0000;
    assert_eq!(
        guest_page_fault_handler(&mut vmm, &mut ctx, &csrs, &mem),
        Err(VmmError::Unimplemented)
    );
    csrs.stval = 0xc20_1008;
    assert_eq!(
        guest_page_fault_handler(&mut vmm, &mut ctx, &csrs, &mem),
        Err(VmmError::Unimplemented)
    );
    csrs.stval = 0xc20_4004;
    assert_eq!(
        guest_page_fault_handler(&mut vmm, &mut ctx, &csrs, &mem),
        Err(VmmError::Unimplemented)
    );
    csrs.stval = 0x1000_0000;
    assert_eq!(
        guest_page_fault_handler(&mut vmm, &mut ctx, &csrs, &mem),
        Err(VmmError::DeviceNotFound)
    );
    csrs.stval = 0xc20_1004;
    csrs.htinst = 0x0000_0073;
    assert_eq!(
        guest_page_fault_handler(&mut vmm, &mut ctx, &csrs, &mem),
        Err(VmmError::DecodeInstError)
    );
    assert_eq!(ctx.sepc, 0x4000_1abc);
    assert_eq!(ctx.x, [0u64; 32]);
    vmm.host_plic = None;
    assert_eq!(
        guest_page_fault_handler(&mut vmm, &mut ctx, &csrs, &mem),
        Err(VmmError::DeviceNotFound)
    );
}

#[test]
fn environment_call_is_answered_and_stepped_over() {
    let mut vmm = vmm(guest(0x1000));
    let mem = PhysMemory::new(GUEST_PA, vec![]).unwrap();
    let mut ctx = TrapContext::new(0x8020_0100, 0x8000_0000_0008_0404);
    ctx.x[17] = 1;
    ctx.x[10] = 0x41;
    ctx.x[11] = 0x4242;
    let mut csrs = zero_csrs();
    csrs.scause = 10;
    assert_eq!(
        trap_request(&vmm, &ctx, &csrs),
        HardwareRequest::Firmware(FirmwareCall::ConsolePutchar(0x41))
    );
    let outcome = trap_handler(&mut vmm, &mut ctx, &mut csrs, &mem, no_reply());
    assert_eq!(outcome, TrapOutcome::Resume { write: None });
    assert_eq!((ctx.x[10], ctx.x[11]), (0, 0));
    assert_eq!(ctx.sepc, 0x8020_0104);
    assert_eq!(ctx.hgatp, 0x8000_0000_0008_0404);

    ctx.x[17] = 0x5449_4D45;
    ctx.x[16] = 7;
    ctx.x[10] = 1;
    assert_eq!(trap_request(&vmm, &ctx, &csrs), HardwareRequest::Nothing);
    let outcome = trap_handler(&mut vmm, &mut ctx, &mut csrs, &mem, no_reply());
    assert_eq!(outcome, TrapOutcome::Resume { write: None });
    assert_eq!(ctx.x[10] as i64, -2);
    assert_eq!(ctx.x[11], 0);
    assert_eq!(ctx.sepc, 0x8020_0108);

    ctx.x[16] = 0;
    ctx.x[10] = 0x1_0000_0000;
    csrs.hvip = 0x40;
    assert_eq!(
        trap_request(&vmm, &ctx, &csrs),
        HardwareRequest::Firmware(FirmwareCall::SetTimer(0x1_0000_0000))
    );
    trap_handler(&mut vmm, &mut ctx, &mut csrs, &mem, no_reply());
    assert_eq!(ctx.x[10], 0);
    assert_eq!(csrs.hvip, 0);
    assert_eq!(csrs.sie, 0x20);
    assert_eq!(ctx.sepc, 0x8020_010c);

    ctx.x[17] = 0x10;
    ctx.x[16] = 3;
    ctx.x[10] = 0x5449_4D45;
    assert_eq!(
        trap_request(&vmm, &ctx, &csrs),
        HardwareRequest::Firmware(FirmwareCall::Base { fid: 3, arg0: 0x5449_4D45 })
    );
    let reply = HardwareReply { firmware: SbiRet { error: 0, value: 1 }, irq: 0 };
    trap_handler(&mut vmm, &mut ctx, &mut csrs, &mem, reply);
    assert_eq!((ctx.x[10], ctx.x[11]), (0, 1));
    assert_eq!(ctx.sepc, 0x8020_0110);
}

#[test]
fn fatal_traps_change_nothing() {
    let mut vmm = vmm(guest(0x10000));
    let (mem, vsatp) = paged_memory();
    let mut ctx = TrapContext::new(0x4000_1abc, 0);
    ctx.x[17] = 0x99;
    let mut csrs = zero_csrs();
    csrs.vsatp = vsatp;
    csrs.hgatp = 0x77;
    csrs.scause = 10;
    assert_eq!(trap_request(&vmm, &ctx, &csrs), HardwareRequest::Nothing);
    assert_eq!(
        trap_handler(&mut vmm, &mut ctx, &mut csrs, &mem, no_reply()),
        TrapOutcome::Fatal(FatalTrap::UnsupportedSbi { ext_id: 0x99 })
    );
    csrs.scause = 8;
    assert_eq!(
        trap_handler(&mut vmm, &mut ctx, &mut csrs, &mem, no_reply()),
        TrapOutcome::Fatal(FatalTrap::UserEnvCall)
    );
    csrs.scause = 2;
    assert_eq!(
        trap_handler(&mut vmm, &mut ctx, &mut csrs, &mem, no_reply()),
        TrapOutcome::Fatal(FatalTrap::IllegalInstruction)
    );
    csrs.scause = 20;
    assert_eq!(
        trap_handler(&mut vmm, &mut ctx, &mut csrs, &mem, no_reply()),
        TrapOutcome::Fatal(FatalTrap::InstructionGuestPageFault {
            sepc: 0x4000_1abc,
            hgatp: 0x77,
            host_va: Some(GUEST_PA + 0x5abc),
        })
    );
    csrs.scause = 12;
    assert_eq!(
        trap_handler(&mut vmm, &mut ctx, &mut csrs, &mem, no_reply()),
        TrapOutcome::Fatal(FatalTrap::Other { scause: 12, sepc: 0x4000_1abc })
    );
    csrs.scause = 22;
    assert_eq!(
        trap_handler(&mut vmm, &mut ctx, &mut csrs, &mem, no_reply()),
        TrapOutcome::Failed(VmmError::Unimplemented)
    );
    assert_eq!(ctx.sepc, 0x4000_1abc);
    assert_eq!(ctx.x[17], 0x99);
    assert!(!vmm.irq_pending);
    assert_eq!(privileged_inst_handler(&mut ctx), Err(VmmError::Unimplemented));
}

#[test]
fn every_error_halts() {
    for e in [
        VmmError::Unimplemented,
        VmmError::DecodeInstError,
        VmmError::TranslationError,
        VmmError::PseudoInst,
        VmmError::DeviceNotFound,
    ] {
        assert_eq!(handle_internal_vmm_error(e), ErrorPolicy::Halt);
    }
}

#[test]
fn way_back_into_the_guest() {
    let ctx = TrapContext::new(0x8020_0000, 0x8000_0000_0008_0404);
    let mut csrs = zero_csrs();
    csrs.stvec = 5;
    csrs.hgatp = 1;
    let plan = switch_to_guest(&ctx, &mut csrs, 0x8020_1000, 0x8020_1068);
    assert!(plan.flush_guest_tlb);
    assert_eq!(plan.restore_va, TRAMPOLINE + 0x68);
    assert_eq!(csrs.stvec, TRAMPOLINE);
    assert_eq!(csrs.hgatp, 0x8000_0000_0008_0404);
    let plan = switch_to_guest(&ctx, &mut csrs, 0x8020_1000, 0x8020_1068);
    assert!(!plan.flush_guest_tlb);
    assert_eq!(csrs.hgatp, 0x8000_0000_0008_0404);
}

#[test]
fn traps_of_the_hypervisor_itself() {
    let ctx = TrapContext::new(0x8020_0000, 0);
    let mut csrs = zero_csrs();
    csrs.stval = 0x1234;
    for code in [5u64, 7, 13] {
        csrs.scause = code;
        assert_eq!(
            trap_from_kernel(&ctx, &csrs, 0x8020_4444),
            KernelTrap::MemoryFault { scause: code, sepc: 0x8020_0000, stval: 0x1234 }
        );
    }
    csrs.scause = 15;
    assert_eq!(
        trap_from_kernel(&ctx, &csrs, 0x8020_4444),
        KernelTrap::Other { scause: 15, sepc: 0x8020_4444, stval: 0x1234 }
    );
    csrs.scause = INTERRUPT | 5;
    assert_eq!(
        trap_from_kernel(&ctx, &csrs, 0x8020_4444),
        KernelTrap::Other { scause: INTERRUPT | 5, sepc: 0x8020_4444, stval: 0x1234 }
    );
}

#[test]
fn plic_window() {
    let plic = PlicState::new(PLIC_BASE, 1);
    assert!(plic.is_plic_access(PLIC_BASE));
    assert!(plic.is_plic_access(PLIC_BASE + 0x3ff_ffff));
    assert!(!plic.is_plic_access(PLIC_BASE + 0x400_0000));
    assert!(!plic.is_plic_access(PLIC_BASE - 1));
    assert_eq!(plic.claim_complete, vec![0]);
    assert_eq!(plic.threshold, vec![0]);
}
