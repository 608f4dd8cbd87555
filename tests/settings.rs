use canary::can::{Bitrate, BusState, EmissionMode};

#[test]
fn bitrate_default_and_steps() {
    let mut b = Bitrate::default();
    assert_eq!(b, Bitrate::Br125kbps);
    b.increment();
    assert_eq!(b, Bitrate::Br250kbps);
    b.decrement();
    b.decrement();
    assert_eq!(b, Bitrate::Br100kbps);
}

#[test]
fn bitrate_saturates_at_both_ends() {
    let mut b = Bitrate::Br1000kbps;
    b.increment();
    assert_eq!(b, Bitrate::Br1000kbps);
    let mut b = Bitrate::Br10kbps;
    b.decrement();
    assert_eq!(b, Bitrate::Br10kbps);
}

#[test]
fn bitrate_values_and_timings() {
    assert_eq!(Bitrate::Br83kbps.bps(), 83_333);
    assert_eq!(Bitrate::Br1000kbps.as_bit_timing(), 0x001c0000);
    assert_eq!(Bitrate::Br800kbps.as_bit_timing(), 0x00070001);
    assert_eq!(Bitrate::Br125kbps.as_bit_timing(), 0x001c0007);
    assert_eq!(Bitrate::Br10kbps.as_bit_timing(), 0x001c0063);
}

#[test]
fn emission_mode_cycles() {
    let mut m = EmissionMode::default();
    assert_eq!(m, EmissionMode::AwaitACK);
    m.increment();
    assert_eq!(m, EmissionMode::IgnoreACK);
    m.increment();
    assert_eq!(m, EmissionMode::Loopback);
    m.increment();
    assert_eq!(m, EmissionMode::AwaitACK);
    m.decrement();
    assert_eq!(m, EmissionMode::Loopback);
}

#[test]
fn emission_mode_bus_flags() {
    assert!(EmissionMode::AwaitACK.automatic_retransmit());
    assert!(!EmissionMode::IgnoreACK.automatic_retransmit());
    assert!(!EmissionMode::Loopback.automatic_retransmit());
    assert!(EmissionMode::Loopback.loopback());
    assert!(!EmissionMode::AwaitACK.loopback());
}

#[test]
fn bus_state_transitions() {
    let mut bus = BusState::new();
    assert_eq!(bus, BusState::Disabled);
    bus.enable_tx(Bitrate::Br500kbps, EmissionMode::Loopback);
    assert_eq!(bus, BusState::Transmitting { bitrate: Bitrate::Br500kbps, mode: EmissionMode::Loopback });
    bus.enable_rx(Bitrate::Br50kbps, true);
    assert_eq!(bus, BusState::Receiving { bitrate: Bitrate::Br50kbps, silent: true });
    bus.disable();
    assert_eq!(bus, BusState::Disabled);
}
