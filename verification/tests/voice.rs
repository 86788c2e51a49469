use aura::voice::{f32_bits_gt, unspecified_note_id, PolyMode, StealMode, Voice, VoiceManager};

fn b(x: f32) -> u32 {
    x.to_bits()
}

#[test]
fn test_note_on_off() {
    let mut vm = VoiceManager::new(4, PolyMode::Poly, StealMode::Oldest);
    let idx = vm.note_on(60, b(0.8)).unwrap();
    assert_eq!(vm.active_count(), 1);
    assert_eq!(vm.voices()[idx].note, 60);
    assert_eq!(vm.voices()[idx].note_id, -1);
    vm.note_off(60);
    assert_eq!(vm.active_count(), 0);
    let idx = vm.note_on_id(7, 64, b(0.5)).unwrap();
    assert_eq!(vm.voices()[idx].note_id, 7);
    assert!(vm.note_off_id(7, 64).is_some());
    assert_eq!(vm.active_count(), 0);
}

#[test]
fn test_poly_fill_and_steal() {
    let mut vm = VoiceManager::new(2, PolyMode::Poly, StealMode::Oldest);
    let _ = vm.note_on(60, b(0.8));
    vm.tick();
    let _ = vm.note_on(64, b(0.7));
    vm.tick();
    assert_eq!(vm.active_count(), 2);
    let idx = vm.note_on(67, b(0.9)).unwrap();
    assert_eq!(vm.voices()[idx].note, 67);
    assert_eq!(vm.active_count(), 2);
}

#[test]
fn test_steal_none() {
    let mut vm = VoiceManager::new(1, PolyMode::Poly, StealMode::NoSteal);
    let _ = vm.note_on(60, b(0.8));
    assert!(vm.note_on(64, b(0.7)).is_none());
}

#[test]
fn test_mono_mode() {
    let mut vm = VoiceManager::new(4, PolyMode::Mono, StealMode::Oldest);
    let _ = vm.note_on(60, b(0.8));
    let _ = vm.note_on(64, b(0.7));
    assert_eq!(vm.voices()[0].note, 64);
    assert_eq!(vm.active_count(), 1);
}

#[test]
fn test_all_notes_off() {
    let mut vm = VoiceManager::new(4, PolyMode::Poly, StealMode::Oldest);
    let _ = vm.note_on(60, b(0.8));
    let _ = vm.note_on(64, b(0.7));
    vm.all_notes_off();
    assert_eq!(vm.active_count(), 0);
}

#[test]
fn oldest_steal_takes_the_oldest_voice() {
    let mut vm = VoiceManager::new(2, PolyMode::Poly, StealMode::Oldest);
    assert_eq!(vm.note_on(60, b(0.8)), Some(0));
    vm.tick();
    assert_eq!(vm.note_on(64, b(0.8)), Some(1));
    assert_eq!(vm.note_on(67, b(0.8)), Some(0));
    assert_eq!(vm.voices()[0].age(), 0);
    assert_eq!(vm.voices()[1].age(), 0);
}

#[test]
fn oldest_steal_ties_go_to_the_later_slot() {
    let mut vm = VoiceManager::new(2, PolyMode::Poly, StealMode::Oldest);
    let _ = vm.note_on(60, b(0.8));
    let _ = vm.note_on(64, b(0.8));
    assert_eq!(vm.note_on(67, b(0.8)), Some(1));
}

#[test]
fn quietest_steal_uses_amplitude() {
    let mut vm = VoiceManager::new(3, PolyMode::Poly, StealMode::Quietest);
    for n in [60u8, 62, 64] {
        let _ = vm.note_on(n, b(1.0));
    }
    let amps = [0.5f32, 0.1, 0.1];
    for (i, a) in amps.iter().enumerate() {
        let mut v = vm.voices()[i];
        v.amplitude = b(*a);
        assert!(vm.set_voice(i, v));
    }
    assert_eq!(vm.note_on(70, b(1.0)), Some(1));
}

#[test]
fn lowest_steal_takes_lowest_note() {
    let mut vm = VoiceManager::new(3, PolyMode::Poly, StealMode::Lowest);
    let _ = vm.note_on(64, b(1.0));
    let _ = vm.note_on(55, b(1.0));
    let _ = vm.note_on(70, b(1.0));
    assert_eq!(vm.note_on(72, b(1.0)), Some(1));
    assert_eq!(vm.voices()[1].note, 72);
}

#[test]
fn same_note_id_retriggers_in_place() {
    let mut vm = VoiceManager::new(4, PolyMode::Poly, StealMode::Oldest);
    assert_eq!(vm.note_on_id(9, 60, b(0.5)), Some(0));
    assert_eq!(vm.note_on_id(3, 62, b(0.5)), Some(1));
    assert_eq!(vm.note_on_id(9, 61, b(0.9)), Some(0));
    assert_eq!(vm.voices()[0].note, 61);
    assert_eq!(vm.active_count(), 2);
}

#[test]
fn note_off_of_unknown_note_is_none() {
    let mut vm = VoiceManager::new(2, PolyMode::Poly, StealMode::Oldest);
    assert_eq!(vm.note_off(60), None);
    let _ = vm.note_on(60, b(1.0));
    assert_eq!(vm.note_off_id(5, 61), None);
    assert_eq!(vm.note_off_id(-1, 60), Some(0));
}

#[test]
fn manager_size_is_clamped() {
    assert_eq!(VoiceManager::new(0, PolyMode::Poly, StealMode::Oldest).max_voices(), 1);
    assert_eq!(VoiceManager::new(1000, PolyMode::Poly, StealMode::Oldest).max_voices(), 128);
    assert_eq!(VoiceManager::new(32, PolyMode::Legato, StealMode::Oldest).voices().len(), 32);
}

#[test]
fn set_voice_out_of_range_is_refused() {
    let mut vm = VoiceManager::new(2, PolyMode::Poly, StealMode::Oldest);
    assert!(!vm.set_voice(2, Voice::default()));
}

#[test]
fn tick_ages_only_active_voices() {
    let mut vm = VoiceManager::new(2, PolyMode::Poly, StealMode::Oldest);
    let _ = vm.note_on(60, b(1.0));
    vm.tick();
    vm.tick();
    assert_eq!(vm.voices()[0].age(), 2);
    assert_eq!(vm.voices()[1].age(), 0);
    assert!(vm.voices()[0].is_active());
    assert!(!vm.voices()[1].is_active());
}

#[test]
fn idle_voice_defaults() {
    let v = Voice::default();
    assert!(!v.is_active());
    assert_eq!(v.note_id, unspecified_note_id());
    assert_eq!(f32::from_bits(v.brightness), 0.5);
    assert_eq!(v.velocity, 0);
    assert_eq!(Voice::new_idle(), v);
}

#[test]
fn f32_bit_order_matches_float_order() {
    let xs = [-2.0f32, -0.0, 0.0, 0.1, 1.0, f32::INFINITY, f32::NEG_INFINITY, f32::NAN];
    for a in xs {
        for c in xs {
            assert_eq!(f32_bits_gt(a.to_bits(), c.to_bits()), a > c, "{a} > {c}");
        }
    }
}

#[test]
fn saved_state_restores_the_same_pool() {
    let mut vm = VoiceManager::new(4, PolyMode::Poly, StealMode::Quietest);
    let _ = vm.note_on_id(3, 60, b(0.8));
    vm.tick();
    let saved: Vec<Voice> = vm.voices().to_vec();
    let back = VoiceManager::restore(&saved, vm.max_voices(), vm.poly_mode, vm.steal_mode).unwrap();
    assert_eq!(back.voices(), vm.voices());
    assert_eq!(back.active_count(), vm.active_count());
    assert_eq!(back.max_voices(), 4);
    assert!(VoiceManager::restore(&saved, 3, PolyMode::Poly, StealMode::Oldest).is_none());
    assert!(VoiceManager::restore(&[], 0, PolyMode::Poly, StealMode::Oldest).is_none());
}

#[test]
fn voice_from_parts_round_trips() {
    let v = Voice::from_parts(true, 61, b(0.7), 9, b(0.2), b(1.5), b(0.3), b(0.4), 12);
    assert!(v.is_active());
    assert_eq!(v.age(), 9);
    assert_eq!((v.note, v.note_id), (61, 12));
    assert_eq!(f32::from_bits(v.pitch_bend), 1.5);
}
