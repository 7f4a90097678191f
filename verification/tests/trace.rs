use raytracer::trace::{trace_step, TraceAction};

#[test]
fn no_hit_means_miss() {
    let hits = vec![false, false, false];
    assert_eq!(trace_step(&hits, None, 4), TraceAction::Miss);
}

#[test]
fn empty_scene_means_miss() {
    let hits: Vec<bool> = vec![];
    assert_eq!(trace_step(&hits, None, 4), TraceAction::Miss);
}

#[test]
fn first_hit_in_scene_order_wins() {
    // The later hit may be geometrically closer; scene order still decides.
    let hits = vec![false, true, true];
    assert_eq!(
        trace_step(&hits, None, 3),
        TraceAction::Bounce { shape: 1, remaining: 2 }
    );
}

#[test]
fn just_left_primitive_is_excluded_by_identity() {
    let hits = vec![false, true, true];
    assert_eq!(
        trace_step(&hits, Some(1), 3),
        TraceAction::Bounce { shape: 2, remaining: 2 }
    );
}

#[test]
fn excluding_the_only_hit_means_miss() {
    let hits = vec![false, true, false];
    assert_eq!(trace_step(&hits, Some(1), 3), TraceAction::Miss);
}

#[test]
fn exhausted_budget_falls_through_to_miss_even_on_a_hit() {
    let hits = vec![true, true];
    assert_eq!(trace_step(&hits, None, 0), TraceAction::Miss);
}

#[test]
fn budget_counts_down_by_one_per_bounce() {
    let hits = vec![true];
    assert_eq!(
        trace_step(&hits, None, 1),
        TraceAction::Bounce { shape: 0, remaining: 0 }
    );
}
