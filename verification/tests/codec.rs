use cardputer_rust::codec::{mic_init_step, register_frame, CodecStep, Es8311, MicInit, ProgramStatus, CODEC_ADDR};

#[test]
fn program_starts_with_reset_and_settle() {
    assert_eq!(mic_init_step(0), Some(CodecStep::Write { reg: 0x00, val: 0x1F }));
    assert_eq!(mic_init_step(1), Some(CodecStep::Settle));
    assert_eq!(mic_init_step(4), Some(CodecStep::Write { reg: 0x01, val: 0xBF }));
    assert_eq!(mic_init_step(22), Some(CodecStep::Write { reg: 0x00, val: 0x80 }));
    assert_eq!(mic_init_step(23), None);
    assert_eq!(CODEC_ADDR, 0x18);
    assert_eq!(register_frame(0x16, 0x06), [0x16, 0x06]);
}

#[test]
fn program_runs_to_the_end() {
    let mut m = MicInit::new();
    let mut writes = Vec::new();
    while let Some(step) = m.action() {
        if let CodecStep::Write { reg, val } = step {
            writes.push((reg, val));
        }
        m.complete(true);
    }
    assert_eq!(m.status(), ProgramStatus::Done);
    assert_eq!(writes.len(), 22);
    assert_eq!(writes[1], (0x00, 0x00));
    assert_eq!(writes[15], (0x14, 0x1A));
}

#[test]
fn program_stops_at_first_failure() {
    let mut m = MicInit::new();
    m.complete(true);
    m.complete(true);
    assert_eq!(m.status(), ProgramStatus::Running);
    m.complete(false);
    assert_eq!(m.status(), ProgramStatus::Failed);
    assert_eq!(m.action(), None);
}

#[test]
fn codec_keeps_its_bus() {
    let mut c = Es8311::new(41u32);
    *c.bus_mut() += 1;
    assert_eq!(c.into_inner(), 42);
}

#[test]
fn settle_delay_returns() {
    cardputer_rust::codec::spin_delay();
}
