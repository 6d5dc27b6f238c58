use halo::app_state::{
    any, drag_origin, refresh_due, takes_reported_position, AppState, FRAME_DURATION_NS, MIN_IDLE_DELAY_NS,
    REFRESH_INTERVAL_NS,
};
use halo::config::{Config, F32Bits, MetricKind, Orientation};
use MetricKind::{Cpu, Disk, Gpu, Ram};

#[test]
fn new_state_from_default_config() {
    let c = Config::default();
    let s = AppState::new(&c);
    assert_eq!(*s.kinds(), vec![Cpu, Ram, Disk, Gpu]);
    assert!(s.animating());
    assert!(!s.positions_dirty());
    assert!(!s.dragging());
    assert!(s.initial_placement_pending());
    assert_eq!(s.last_orientation(), Orientation::Horizontal);
}

#[test]
fn saved_position_skips_first_placement() {
    let mut c = Config::default();
    c.metric_mut(Disk).position = Some([F32Bits(0), F32Bits(0)]);
    assert!(!AppState::new(&c).initial_placement_pending());
    c.metric_mut(Disk).enabled = false;
    assert!(AppState::new(&c).initial_placement_pending());
}

#[test]
fn sync_removes_and_appends() {
    let mut s = AppState::new(&Config::default());
    let plan = s.sync(&vec![Cpu, Disk, Gpu], Orientation::Horizontal);
    assert_eq!(plan.keep, vec![true, false, true, true]);
    assert!(plan.added.is_empty());
    assert!(plan.realign);
    assert_eq!(*s.kinds(), vec![Cpu, Disk, Gpu]);

    let plan = s.sync(&vec![Cpu, Ram, Disk, Gpu], Orientation::Horizontal);
    assert_eq!(plan.keep, vec![true, true, true]);
    assert_eq!(plan.added, vec![Ram]);
    assert!(plan.realign);
    assert_eq!(*s.kinds(), vec![Cpu, Disk, Gpu, Ram]);

    let plan = s.sync(&vec![Cpu, Ram, Disk, Gpu], Orientation::Horizontal);
    assert_eq!(plan.keep, vec![true, true, true, true]);
    assert!(plan.added.is_empty());
    assert!(!plan.realign);
    assert_eq!(*s.kinds(), vec![Cpu, Disk, Gpu, Ram]);

    let plan = s.sync(&vec![Cpu, Ram, Disk, Gpu], Orientation::Vertical);
    assert!(plan.realign);
    assert_eq!(s.last_orientation(), Orientation::Vertical);
}

#[test]
fn sync_swap_same_length_realigns() {
    let mut s = AppState::new(&Config::default());
    s.sync(&vec![Cpu, Ram], Orientation::Horizontal);
    let plan = s.sync(&vec![Cpu, Gpu], Orientation::Horizontal);
    assert_eq!(plan.keep, vec![true, false]);
    assert_eq!(plan.added, vec![Gpu]);
    assert!(plan.realign);
    assert_eq!(*s.kinds(), vec![Cpu, Gpu]);
}

#[test]
fn saving_is_debounced() {
    let mut s = AppState::new(&Config::default());
    assert!(!s.take_save(5 * REFRESH_INTERVAL_NS));
    s.mark_positions_dirty();
    assert!(!s.take_save(999_999_999));
    assert!(s.positions_dirty());
    assert!(s.take_save(1_000_000_000));
    assert!(!s.positions_dirty());
    assert!(!s.take_save(3_000_000_000));
}

#[test]
fn repaint_pacing() {
    let mut s = AppState::new(&Config::default());
    assert_eq!(s.repaint_delay(0), FRAME_DURATION_NS);
    s.finish_frame(&vec![false, false], &vec![false, true]);
    assert_eq!(s.repaint_delay(0), FRAME_DURATION_NS);
    s.finish_frame(&vec![false], &vec![]);
    assert_eq!(s.repaint_delay(0), REFRESH_INTERVAL_NS);
    assert_eq!(s.repaint_delay(300_000_000), 700_000_000);
    assert_eq!(s.repaint_delay(980_000_000), MIN_IDLE_DELAY_NS);
    assert_eq!(s.repaint_delay(5_000_000_000), MIN_IDLE_DELAY_NS);
    s.note_refreshed();
    assert!(s.animating());
    assert!(refresh_due(1_000_000_000));
    assert!(!refresh_due(999_999_999));
}

#[test]
fn placement_done_clears_pending() {
    let mut s = AppState::new(&Config::default());
    s.placement_done();
    assert!(!s.initial_placement_pending());
}

#[test]
fn last_moved_widget_leads_the_drag() {
    assert_eq!(drag_origin(&vec![false, true, false, true]), Some(3));
    assert_eq!(drag_origin(&vec![true, false]), Some(0));
    assert_eq!(drag_origin(&vec![false, false]), None);
    assert_eq!(drag_origin(&vec![]), None);
}

#[test]
fn frame_flags_combine_widgets() {
    let mut s = AppState::new(&Config::default());
    s.finish_frame(&vec![false, true, false], &vec![false, false, false]);
    assert!(s.animating());
    assert!(!s.dragging());
    s.finish_frame(&vec![false, false], &vec![true, false]);
    assert!(!s.animating());
    assert!(s.dragging());
    assert!(!any(&vec![]));
    assert!(any(&vec![false, true]));
}

#[test]
fn only_unplaced_widgets_take_the_reported_position() {
    assert!(takes_reported_position(false, true));
    assert!(!takes_reported_position(true, true));
    assert!(!takes_reported_position(false, false));
}
