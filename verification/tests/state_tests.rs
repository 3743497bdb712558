use randno::range::RangeInt;
use randno::state::{AppData, AppEvent};

#[test]
fn default_state_is_fresh() {
    let st = AppData::default();
    assert_eq!(st.range_start.get(), 1);
    assert_eq!(st.range_end.get(), 1);
    assert!(st.result.is_none());
    assert!(!st.generation_blocked);
}

#[test]
fn blocked_follows_edits_in_either_order() {
    let mut st = AppData::default();
    st.transition(AppEvent::SetRangeStart(RangeInt::new(10)));
    st.transition(AppEvent::SetRangeEnd(RangeInt::new(5)));
    assert!(st.generation_blocked);

    let mut st = AppData::default();
    st.transition(AppEvent::SetRangeEnd(RangeInt::new(5)));
    st.transition(AppEvent::SetRangeStart(RangeInt::new(10)));
    assert!(st.generation_blocked);

    let mut st = AppData::default();
    st.transition(AppEvent::SetRangeEnd(RangeInt::new(10)));
    st.transition(AppEvent::SetRangeStart(RangeInt::new(10)));
    assert!(!st.generation_blocked);

    let mut st = AppData::default();
    st.transition(AppEvent::SetRangeStart(RangeInt::new(5)));
    st.transition(AppEvent::SetRangeEnd(RangeInt::new(10)));
    assert!(!st.generation_blocked);
}

#[test]
fn edits_do_not_touch_result() {
    let mut st = AppData::default();
    st.transition(AppEvent::Generate);
    let drawn = st.result;
    assert!(drawn.is_some());
    st.transition(AppEvent::SetRangeStart(RangeInt::new(100)));
    assert_eq!(st.result, drawn);
    st.transition(AppEvent::SetRangeEnd(RangeInt::new(200)));
    assert_eq!(st.result, drawn);
}

#[test]
fn blocked_generate_is_a_noop() {
    let mut st = AppData::from_bounds(RangeInt::new(10), RangeInt::new(5));
    assert!(st.generation_blocked);
    st.transition(AppEvent::Generate);
    assert!(st.result.is_none());

    st.transition(AppEvent::SetRangeEnd(RangeInt::new(20)));
    st.transition(AppEvent::Generate);
    let drawn = st.result;
    assert!(drawn.is_some());
    st.transition(AppEvent::SetRangeEnd(RangeInt::new(5)));
    assert!(st.generation_blocked);
    st.transition(AppEvent::Generate);
    assert_eq!(st.result, drawn);
}

#[test]
fn generate_stays_within_bounds() {
    let mut st = AppData::default();
    st.transition(AppEvent::SetRangeStart(RangeInt::new(3)));
    st.transition(AppEvent::SetRangeEnd(RangeInt::new(7)));
    for _ in 0..100 {
        st.transition(AppEvent::Generate);
        let v = st.result.unwrap().get();
        assert!((3..=7).contains(&v));
    }
}

#[test]
fn equal_bounds_draw_deterministically() {
    let mut st = AppData::default();
    st.transition(AppEvent::SetRangeStart(RangeInt::new(50)));
    st.transition(AppEvent::SetRangeEnd(RangeInt::new(50)));
    for _ in 0..100 {
        st.transition(AppEvent::Generate);
        assert_eq!(st.result, Some(RangeInt::new(50)));
    }
}

#[test]
fn stale_result_survives_inverting_the_range() {
    let mut st = AppData::default();
    st.transition(AppEvent::Generate);
    assert_eq!(st.result, Some(RangeInt::new(1)));
    st.transition(AppEvent::SetRangeStart(RangeInt::new(10)));
    st.transition(AppEvent::SetRangeEnd(RangeInt::new(5)));
    assert!(st.generation_blocked);
    st.transition(AppEvent::Generate);
    assert_eq!(st.result, Some(RangeInt::new(1)));
}

#[test]
fn from_bounds_derives_the_blocked_flag() {
    let st = AppData::from_bounds(RangeInt::new(2), RangeInt::new(9));
    assert!(!st.generation_blocked);
    assert!(st.result.is_none());
    assert_eq!(st.range_start.get(), 2);
    assert_eq!(st.range_end.get(), 9);

    let st = AppData::from_bounds(RangeInt::new(9), RangeInt::new(2));
    assert!(st.generation_blocked);
}

#[test]
fn resending_the_same_edit_is_harmless() {
    let mut st = AppData::default();
    st.transition(AppEvent::SetRangeStart(RangeInt::new(4)));
    st.transition(AppEvent::SetRangeStart(RangeInt::new(4)));
    assert_eq!(st.range_start.get(), 4);
    assert_eq!(st.range_end.get(), 1);
    assert!(st.generation_blocked);
}
