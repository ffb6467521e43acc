use jp8_core::envelope::EnvStage;

#[test]
fn gate_on_from_every_stage_attacks() {
    for s in [EnvStage::Idle, EnvStage::Attack, EnvStage::Decay, EnvStage::Sustain, EnvStage::Release] {
        assert_eq!(s.after_gate_on(), EnvStage::Attack);
    }
}

#[test]
fn gate_off_releases_unless_idle() {
    assert_eq!(EnvStage::Idle.after_gate_off(), EnvStage::Idle);
    assert_eq!(EnvStage::Attack.after_gate_off(), EnvStage::Release);
    assert_eq!(EnvStage::Decay.after_gate_off(), EnvStage::Release);
    assert_eq!(EnvStage::Sustain.after_gate_off(), EnvStage::Release);
    assert_eq!(EnvStage::Release.after_gate_off(), EnvStage::Release);
}

#[test]
fn segments_advance_on_target() {
    assert_eq!(EnvStage::Attack.after_tick(true), EnvStage::Decay);
    assert_eq!(EnvStage::Attack.after_tick(false), EnvStage::Attack);
    assert_eq!(EnvStage::Decay.after_tick(true), EnvStage::Sustain);
    assert_eq!(EnvStage::Decay.after_tick(false), EnvStage::Decay);
    assert_eq!(EnvStage::Release.after_tick(true), EnvStage::Idle);
    assert_eq!(EnvStage::Release.after_tick(false), EnvStage::Release);
    assert_eq!(EnvStage::Sustain.after_tick(true), EnvStage::Sustain);
    assert_eq!(EnvStage::Idle.after_tick(true), EnvStage::Idle);
}

#[test]
fn full_adsr_cycle() {
    let mut s = EnvStage::Idle;
    assert!(!s.is_active());
    s = s.after_gate_on();
    s = s.after_tick(true);
    s = s.after_tick(true);
    assert_eq!(s, EnvStage::Sustain);
    s = s.after_gate_off();
    assert!(s.is_active());
    s = s.after_tick(true);
    assert_eq!(s, EnvStage::Idle);
    assert!(!s.is_active());
}
