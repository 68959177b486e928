use vumeter::audio_hw::{Pin, SwitchEvent, TimerEvent};
use vumeter::board::registers::{
    ccm_ccgr1_pit, ccm_ccgr5_dma, ccm_ccgr5_spdif, dma_tcd_attr_dsize, dma_tcd_attr_ssize,
    dma_tcd_nbytes_mloffyes_mloff, dma_tcd_nbytes_mloffyes_nbytes, samples_to_copy,
    spdif_block_fits, spdif_next_write_offset, spdif_read_offset_after_copy, spdif_sample_bits,
    spdif_scr_rxfifofull_sel, spdif_scr_usrc_sel, spdif_srpc_gainsel,
};
use vumeter::board::switch::{Led, Pwr, SleepPin, Switch};
use vumeter::board::timer::{timer_cycles, Timer};
use vumeter::board::uart::UART;

#[test]
fn peripherals_are_handed_out_once() {
    let mut taken = false;
    assert!(SleepPin::initialize(&mut taken).is_some());
    assert!(SleepPin::initialize(&mut taken).is_none());
    let mut taken = false;
    assert!(Pwr::initialize(&mut taken).is_some());
    assert!(Pwr::initialize(&mut taken).is_none());
    let mut taken = false;
    assert!(Led::initialize(&mut taken).is_some());
    assert!(Led::initialize(&mut taken).is_none());
    let mut taken = false;
    assert!(UART::initialize(&mut taken).is_some());
    assert!(UART::initialize(&mut taken).is_none());
    let mut taken = false;
    assert!(Switch::initialize(&mut taken).is_some());
    assert!(Switch::initialize(&mut taken).is_none());
    let mut taken = false;
    assert!(Timer::initialize(&mut taken).is_some());
    assert!(taken);
    assert!(Timer::initialize(&mut taken).is_none());
}

#[test]
fn switch_reports_changes_of_position() {
    let mut taken = false;
    let mut s = Switch::initialize(&mut taken).unwrap();
    assert_eq!(s.current(), None);
    assert_eq!(s.check(0b10), Some(SwitchEvent::Activated(Pin::B)));
    assert_eq!(s.check(0b10), None);
    assert_eq!(s.current(), Some(Pin::B));
    // Between positions: no event, but the position is forgotten.
    assert_eq!(s.check(0b110), None);
    assert_eq!(s.current(), None);
    assert_eq!(s.check(0b10), Some(SwitchEvent::Activated(Pin::B)));
    assert_eq!(s.check(0b1), Some(SwitchEvent::Activated(Pin::A)));
    assert_eq!(s.check(0b100), Some(SwitchEvent::Activated(Pin::C)));
    assert_eq!(s.check(0b1000), Some(SwitchEvent::Activated(Pin::D)));
    assert_eq!(s.check(0), None);
    assert_eq!(s.check_pins(false, false, false, true), Some(SwitchEvent::Activated(Pin::D)));
    assert_eq!(s.check_pins(true, false, false, false), Some(SwitchEvent::Activated(Pin::A)));
    assert_eq!(s.check_pins(true, true, false, false), None);
    assert_eq!(s.check_pins(false, true, false, false), Some(SwitchEvent::Activated(Pin::B)));
    assert_eq!(s.check_pins(false, false, true, false), Some(SwitchEvent::Activated(Pin::C)));
}

#[test]
fn timer_reports_firings_since_last_reading() {
    let mut taken = false;
    let mut t = Timer::initialize(&mut taken).unwrap();
    assert_eq!(t.elapsed(0), None);
    assert_eq!(t.elapsed(3), Some(TimerEvent::Elapsed(3)));
    assert_eq!(t.elapsed(3), None);
    assert_eq!(t.elapsed(10), Some(TimerEvent::Elapsed(7)));
    assert_eq!(timer_cycles(25_000), 599_999);
    assert_eq!(timer_cycles(1), 23);
}

#[test]
fn register_fields_land_in_place() {
    assert_eq!(ccm_ccgr5_dma(3), 0xC0);
    assert_eq!(ccm_ccgr5_dma(7), 0xC0);
    assert_eq!(dma_tcd_attr_ssize(2), 0x200);
    assert_eq!(dma_tcd_attr_dsize(2), 2);
    assert_eq!(dma_tcd_attr_dsize(10), 2);
    assert_eq!(dma_tcd_nbytes_mloffyes_nbytes(8), 8);
    assert_eq!(dma_tcd_nbytes_mloffyes_nbytes(0x401), 1);
    assert_eq!(dma_tcd_nbytes_mloffyes_mloff(-8), 1016 << 10);
    assert_eq!(dma_tcd_nbytes_mloffyes_mloff(5), 5 << 10);
    assert_eq!(ccm_ccgr5_spdif(3), 0xC000);
    assert_eq!(spdif_scr_rxfifofull_sel(3), 0x18_0000);
    assert_eq!(spdif_scr_rxfifofull_sel(2), 0x10_0000);
    assert_eq!(spdif_scr_usrc_sel(3), 3);
    assert_eq!(spdif_srpc_gainsel(7), 0x38);
    assert_eq!(ccm_ccgr1_pit(3), 0x3000);
}

#[test]
fn copy_count_wraps_around_the_ring() {
    assert_eq!(samples_to_copy(100, 50, 128), 50);
    assert_eq!(samples_to_copy(10, 1500, 128), 46);
    assert_eq!(samples_to_copy(1000, 10, 128), 128);
    assert_eq!(samples_to_copy(7, 7, 128), 0);
}

#[test]
fn dma_handler_ring_arithmetic() {
    assert!(spdif_block_fits(64, 32));
    assert!(spdif_block_fits(64, 64));
    assert!(!spdif_block_fits(64, 96));
    assert!(spdif_block_fits(64, 97));
    assert_eq!(spdif_next_write_offset(0), 32);
    assert_eq!(spdif_next_write_offset(1504), 0);
    assert_eq!(spdif_sample_bits(0x7FFF00), 0x7FFF);
    assert_eq!(spdif_sample_bits(0x1234AB), 0x1234);
    assert_eq!(spdif_sample_bits(0), 0);
}

#[test]
fn copy_leaves_the_read_offset_in_place() {
    assert_eq!(spdif_read_offset_after_copy(100, 20), 100);
    assert_eq!(spdif_read_offset_after_copy(1536, 3), 0);
    assert_eq!(spdif_read_offset_after_copy(1536, 0), 1536);
}
