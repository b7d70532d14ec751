use musiclight::animation::{Color, ColorBuffer};
use musiclight::fixed::FP_ONE;
use musiclight::udpproto::{WireFrame, WireError, channel_to_byte};
use musiclight::coordinator::Coordinator;
use musiclight::signal_processing::SignalProcessing;
use musiclight::particles::Particles;

#[test]
fn frame_length_and_header_bytes() {
    let f = WireFrame::new(322);
    assert_eq!(f.bytes().len(), 2 + 4 * 322);
    assert_eq!(f.bytes()[0], 3);
    assert_eq!(f.bytes()[1], 3);
}

#[test]
fn frame_header_survives_any_color_content() {
    let mut f = WireFrame::new(4);
    f.set_color(0, 0, 255, 255, 255, 255).unwrap();
    f.set_color(0, 3, 1, 2, 3, 4).unwrap();
    assert_eq!(f.bytes().len(), 2 + 4 * 4);
    assert_eq!(f.bytes()[0], 3);
    assert_eq!(f.bytes()[1], 3);
    assert_eq!(f.bytes()[2], 255);
    assert_eq!(f.bytes()[2 + 4 * 3 + 3], 4);
}

#[test]
fn frame_rejects_out_of_range_led() {
    let mut f = WireFrame::new(4);
    assert_eq!(f.set_color(0, 4, 1, 1, 1, 1), Err(WireError::IndexOutOfRange));
    // the frame is unchanged after the error
    assert_eq!(f.bytes()[2 + 4 * 3], 0);
}

#[test]
fn channel_bytes_round_half_up() {
    assert_eq!(channel_to_byte(0), 0);
    assert_eq!(channel_to_byte(FP_ONE), 255);
    // 0.5 * 255 = 127.5 rounds to 128
    assert_eq!(channel_to_byte(32768), 128);
}

#[test]
fn encode_serializes_a_grid_in_board_order() {
    let mut f = WireFrame::new(2);
    let mut b = ColorBuffer::new(1, 2);
    b.set_flat(0, Color { r: FP_ONE, g: 0, b: 32768, w: 0 });
    b.set_flat(1, Color { r: 0, g: FP_ONE, b: 0, w: FP_ONE });
    f.encode(&b).unwrap();
    assert_eq!(f.bytes()[2], 255);
    assert_eq!(f.bytes()[3], 0);
    assert_eq!(f.bytes()[4], 128);
    assert_eq!(f.bytes()[5], 0);
    assert_eq!(f.bytes()[6], 0);
    assert_eq!(f.bytes()[7], 255);
    assert_eq!(f.bytes()[8], 0);
    assert_eq!(f.bytes()[9], 255);
}

#[test]
fn encode_rejects_a_mismatched_grid() {
    let mut f = WireFrame::new(3);
    let b = ColorBuffer::new(1, 2);
    assert_eq!(f.encode(&b), Err(WireError::IndexOutOfRange));
}

#[test]
fn standby_after_enough_silence_and_instant_recovery() {
    // threshold 48000 samples, 512 per block
    let mut c = Coordinator::new(512, 48000, 5_066_666, 33_333_333, 1_000_000_000, 0);
    // blocks 1..=93 leave the counter below the threshold
    for _ in 0..93 {
        assert!(c.on_block(true));
        assert!(!c.in_standby());
    }
    assert_eq!(c.silent_samples, 93 * 512);
    // block 94 crosses the threshold: the tick is suppressed and frame
    // emission is gated off
    assert!(!c.on_block(true));
    assert!(c.in_standby());
    assert!(!c.on_block(true));
    assert!(c.in_standby());
    // the very next non-silent block runs again and clears the counter
    assert!(c.on_block(false));
    assert!(!c.in_standby());
    assert_eq!(c.silent_samples, 0);
}

#[test]
fn standby_suppresses_animation_ticks_until_sound_returns() {
    let mut c = Coordinator::new(512, 48000, 5_066_666, 33_333_333, 1_000_000_000, 0);
    let sp = SignalProcessing::new(512, 48000);
    let mut anim = Particles::new(1, 8);
    // drive into standby
    for _ in 0..94 {
        if c.on_block(true) {
            anim.periodic(&sp).unwrap();
        }
    }
    let snapshot = anim.get_colorlist().cells.clone();
    // further silent blocks never tick the animation: the grid is unchanged
    for _ in 0..10 {
        if c.on_block(true) {
            anim.periodic(&sp).unwrap();
        }
    }
    assert_eq!(anim.get_colorlist().cells, snapshot);
    // the first non-silent block resumes generation at once
    assert!(c.on_block(false));
    anim.periodic(&sp).unwrap();
}

#[test]
fn emission_deadlines_advance_by_one_period() {
    let mut c = Coordinator::new(512, 48000, 5_066_666, 33_333_333, 1_000_000_000, 0);
    assert!(!c.emission_due(33_333_333));
    assert!(c.emission_due(33_333_334));
    c.emission_done(40_000_000);
    assert_eq!(c.next_send_ns, 66_666_666);
}

#[test]
fn emission_resynchronizes_after_excessive_lag() {
    let mut c = Coordinator::new(512, 48000, 5_066_666, 33_333_333, 1_000_000_000, 0);
    // lag beyond five periods: schedule one period from now, no burst
    c.emission_done(300_000_000);
    assert_eq!(c.next_send_ns, 300_000_000 + 33_333_333);
}

#[test]
fn emission_backs_off_after_a_refused_send() {
    let mut c = Coordinator::new(512, 48000, 5_066_666, 33_333_333, 1_000_000_000, 0);
    c.emission_refused();
    assert_eq!(c.next_send_ns, 33_333_333 + 1_000_000_000);
}

#[test]
fn block_deadline_tracks_the_ingest_cadence() {
    let mut c = Coordinator::new(512, 48000, 5_066_666, 33_333_333, 1_000_000_000, 0);
    assert!(!c.block_due(5_066_665));
    assert!(c.block_due(5_066_666));
    c.block_done(6_000_000);
    assert_eq!(c.next_block_ns, 6_000_000 + 5_066_666);
}
