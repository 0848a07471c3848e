use raytracer::{PathEnd, PathTracer, TraceEvent};

/// Feeds `events` to a fresh path until it ends; returns the end and how many
/// events it took.
fn trace(max_depth: u32, events: &[TraceEvent]) -> (Option<PathEnd>, usize) {
    let mut p = PathTracer::new(max_depth);
    let mut used: usize = 0;
    for e in events {
        if p.end().is_some() {
            break;
        }
        p.record(*e);
        used += 1;
    }
    (p.end(), used)
}

#[test]
fn depth_zero_is_black_before_tracing() {
    assert_eq!(PathTracer::new(0).end(), Some(PathEnd::Black));
    assert_eq!(trace(0, &[TraceEvent::Miss]), (Some(PathEnd::Black), 0));
}

#[test]
fn miss_ends_on_background() {
    assert_eq!(trace(1, &[TraceEvent::Miss]), (Some(PathEnd::Background), 1));
    assert_eq!(
        trace(3, &[TraceEvent::Scattered, TraceEvent::Scattered, TraceEvent::Miss]),
        (Some(PathEnd::Background), 3)
    );
}

#[test]
fn absorption_ends_black() {
    assert_eq!(trace(5, &[TraceEvent::Absorbed]), (Some(PathEnd::Black), 1));
    assert_eq!(
        trace(5, &[TraceEvent::Scattered, TraceEvent::Absorbed, TraceEvent::Miss]),
        (Some(PathEnd::Black), 2)
    );
}

#[test]
fn depth_bound_cuts_scattering_off() {
    assert_eq!(trace(1, &[TraceEvent::Scattered, TraceEvent::Miss]), (Some(PathEnd::Black), 1));
    assert_eq!(
        trace(2, &[TraceEvent::Scattered, TraceEvent::Scattered, TraceEvent::Miss]),
        (Some(PathEnd::Black), 2)
    );
}

#[test]
fn path_still_open_until_it_ends() {
    let mut p = PathTracer::new(3);
    assert_eq!(p.end(), None);
    p.record(TraceEvent::Scattered);
    assert_eq!(p.end(), None);
    p.record(TraceEvent::Scattered);
    assert_eq!(p.end(), None);
    p.record(TraceEvent::Scattered);
    assert_eq!(p.end(), Some(PathEnd::Black));
}
