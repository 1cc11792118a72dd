use trail3d::point::Point;
use trail3d::smoother::{chaikin, multiplier, Mix, Weight};
use trail3d::strip::{strip_for, strip_vertices, StripVertex};
use trail3d::trail::{expire_points, remove_id, trim_points, Action, EmitStep, Trail3D};

type Pos = [f64; 3];

fn dist2(p: Pos, q: Pos) -> f64 {
    (p[0] - q[0]).powi(2) + (p[1] - q[1]).powi(2) + (p[2] - q[2]).powi(2)
}

fn lerp(p: Mix, q: Mix, w: Weight) -> Mix {
    Mix::Lerp(Box::new(p), Box::new(q), w)
}

fn pt(id: u64, age: i64) -> Point<Pos> {
    Point::new(id, [id as f64, 0.0, 0.0], age)
}

/// Runs an emission step, deciding the commit distance as the host does.
fn step(t: &mut Trail3D<Pos>, pos: Pos, delta: u64, distance: f64) -> EmitStep {
    let far = match t.b {
        Some(b) => dist2(b.transform, pos) >= distance * distance,
        None => false,
    };
    t.update_emit(pos, delta, far)
}

#[test]
fn point_update_counts_down() {
    let mut p = pt(3, 10);
    assert!(!p.update(4));
    assert_eq!(p.age, 6);
    assert!(p.update(6));
    assert_eq!(p.age, 0);
    assert_eq!(p.id, 3);
}

#[test]
fn point_update_saturates() {
    let mut p = pt(0, i64::MIN + 5);
    assert!(p.update(u64::MAX));
    assert_eq!(p.age, i64::MIN);
}

#[test]
fn ids_strictly_increase() {
    let mut t: Trail3D<Pos> = Trail3D::new(100);
    let a = t.make_point([0.0; 3], 1);
    let b = t.make_point([0.0; 3], 1);
    t.add_trail_point([1.0, 0.0, 0.0]);
    t.set_temp_segment(vec![([0.0; 3], 5), ([1.0; 3], 6)]);
    assert_eq!(a.id, 0);
    assert_eq!(b.id, 1);
    assert_eq!(t.points[0].id, 2);
    assert_eq!(t.temp_segment[0].id, 3);
    assert_eq!(t.temp_segment[1].id, 4);
    assert_eq!(t.temp_segment[1].age, 6);
    assert_eq!(t.next_id, 5);
}

#[test]
fn anchor_window_scenario() {
    let mut t: Trail3D<Pos> = Trail3D::new(500_000);
    let d = 0.1;
    assert_eq!(step(&mut t, [0.0, 0.0, 0.0], 16_000, d), EmitStep::First);
    assert_eq!(t.a.unwrap().transform, [0.0, 0.0, 0.0]);
    assert!(t.b.is_none());
    assert_eq!(step(&mut t, [0.0, 0.0, 0.05], 16_000, d), EmitStep::Second);
    assert_eq!(t.a.unwrap().transform, [0.0, 0.0, 0.0]);
    assert_eq!(t.b.unwrap().transform, [0.0, 0.0, 0.05]);
    assert_eq!(step(&mut t, [0.0, 0.0, 0.12], 16_000, d), EmitStep::Window { advanced: false });
    assert_eq!(t.a.unwrap().transform, [0.0, 0.0, 0.0]);
    assert_eq!(t.b.unwrap().transform, [0.0, 0.0, 0.05]);
    assert_eq!(t.c.unwrap().transform, [0.0, 0.0, 0.12]);
    let terms = t.smoothing_terms();
    assert_eq!(terms, vec![Mix::B]);
    t.set_temp_segment(vec![(t.b.unwrap().transform, t.b.unwrap().age)]);
    assert_eq!(t.temp_segment.len(), 1);
    assert!(t.store.is_empty());
    let temp_id = t.temp_segment[0].id;
    assert_eq!(step(&mut t, [0.0, 0.0, 0.25], 16_000, d), EmitStep::Window { advanced: true });
    assert_eq!(t.a.unwrap().transform, [0.0, 0.0, 0.05]);
    assert_eq!(t.b.unwrap().transform, [0.0, 0.0, 0.25]);
    assert_eq!(t.c.unwrap().transform, [0.0, 0.0, 0.25]);
    assert_eq!(t.store.len(), 1);
    assert_eq!(t.store[0].id, temp_id);
    assert!(t.temp_segment.is_empty());
}

#[test]
fn anchors_age_every_step() {
    let mut t: Trail3D<Pos> = Trail3D::new(100);
    t.update_emit([0.0; 3], 30, false);
    t.update_emit([1.0; 3], 30, false);
    assert_eq!(t.a.unwrap().age, 70);
    assert_eq!(t.b.unwrap().age, 100);
    t.update_emit([2.0; 3], 30, false);
    assert_eq!(t.a.unwrap().age, 40);
    assert_eq!(t.b.unwrap().age, 70);
    assert_eq!(t.c.unwrap().age, 70);
}

#[test]
fn expired_anchor_removes_namesake() {
    let mut t: Trail3D<Pos> = Trail3D::new(100);
    t.a = Some(pt(7, 5));
    t.b = Some(pt(8, 50));
    t.c = Some(pt(9, 50));
    t.store = vec![pt(6, 50), pt(7, 50), pt(10, 50)];
    assert!(t.update_points(10));
    let ids: Vec<u64> = t.store.iter().map(|p| p.id).collect();
    assert_eq!(ids, vec![6, 10]);
    assert_eq!(t.a.unwrap().age, -5);
    assert_eq!(t.a.unwrap().id, 7);
}

#[test]
fn update_points_needs_all_anchors() {
    let mut t: Trail3D<Pos> = Trail3D::new(100);
    t.a = Some(pt(1, 5));
    t.store = vec![pt(0, 1)];
    assert!(!t.update_points(10));
    assert_eq!(t.store.len(), 1);
    assert_eq!(t.a.unwrap().age, 5);
}

#[test]
fn store_is_trimmed_from_front() {
    let mut t: Trail3D<Pos> = Trail3D::new(100);
    t.segments = 2;
    t.smoothing_iterations = 1;
    t.a = Some(pt(100, 50));
    t.b = Some(pt(101, 50));
    t.c = Some(pt(102, 50));
    t.store = (0..7).map(|i| pt(i, 50)).collect();
    assert_eq!(t.max_points_count(), 4);
    assert!(t.update_points(1));
    let ids: Vec<u64> = t.store.iter().map(|p| p.id).collect();
    assert_eq!(ids, vec![3, 4, 5, 6]);
    assert!(t.store.iter().all(|p| p.age == 49));
}

#[test]
fn max_points_by_depth() {
    let mut t: Trail3D<Pos> = Trail3D::new(100);
    let expected = [20, 40, 80, 120, 20];
    for (depth, want) in expected.iter().enumerate() {
        t.smoothing_iterations = depth as u32;
        assert_eq!(t.max_points_count(), *want);
    }
    assert_eq!(multiplier(3), 6);
    assert_eq!(multiplier(9), 1);
}

#[test]
fn lifetime_runs_out() {
    let mut t: Trail3D<Pos> = Trail3D::new(5);
    t.a = Some(pt(100, 1000));
    t.b = Some(pt(101, 1000));
    t.c = Some(pt(102, 1000));
    t.store = vec![pt(0, 5), pt(1, 7)];
    assert!(t.update_points(2));
    assert!(t.update_points(2));
    assert_eq!(t.store.len(), 2);
    assert_eq!(t.store[0].age, 1);
    assert!(t.update_points(1));
    assert_eq!(t.store.len(), 1);
    assert_eq!(t.store[0].id, 1);
    assert!(t.update_points(2));
    assert!(t.store.is_empty());
}

#[test]
fn sequence_helpers() {
    let s = vec![pt(0, 3), pt(1, 1), pt(2, 9)];
    let e = expire_points(&s, 1);
    assert_eq!(e.iter().map(|p| (p.id, p.age)).collect::<Vec<_>>(), vec![(0, 2), (2, 8)]);
    let r = remove_id(&s, 1);
    assert_eq!(r.iter().map(|p| p.id).collect::<Vec<_>>(), vec![0, 2]);
    let t = trim_points(&s, 2);
    assert_eq!(t.iter().map(|p| p.id).collect::<Vec<_>>(), vec![1, 2]);
    assert_eq!(trim_points(&s, 5).len(), 3);
}

#[test]
fn chaikin_depth_zero_is_middle() {
    assert_eq!(chaikin(0), vec![Mix::B]);
}

#[test]
fn chaikin_depth_one() {
    assert_eq!(
        chaikin(1),
        vec![lerp(Mix::A, Mix::B, Weight::Xi), lerp(Mix::B, Mix::C, Weight::X)]
    );
}

#[test]
fn chaikin_depth_two_and_three() {
    let a1 = || lerp(Mix::A, Mix::B, Weight::Xi);
    let b1 = || lerp(Mix::B, Mix::C, Weight::X);
    let a2 = || lerp(Mix::A, Mix::B, Weight::Xpa);
    let b2 = || lerp(Mix::B, Mix::C, Weight::Xpb);
    assert_eq!(
        chaikin(2),
        vec![a2(), lerp(a1(), b1(), Weight::X), lerp(a1(), b1(), Weight::Xi), b2()]
    );
    let three = chaikin(3);
    assert_eq!(three.len(), 6);
    assert_eq!(three[0], a2());
    assert_eq!(three[1], lerp(lerp(a1(), b1(), Weight::X), a2(), Weight::X));
    assert_eq!(three[2], lerp(a1(), b1(), Weight::Xpb));
    assert_eq!(three[3], lerp(a1(), b1(), Weight::Xpa));
    assert_eq!(three[4], lerp(lerp(a1(), b1(), Weight::Xi), b2(), Weight::X));
    assert_eq!(three[5], b2());
    assert!(chaikin(4).is_empty());
}

#[test]
fn strip_counts() {
    assert!(strip_vertices(0, 0).is_empty());
    assert!(strip_vertices(1, 1).is_empty());
    let v = strip_for(3, false);
    assert_eq!(v.len(), 4);
    assert_eq!(v[0], StripVertex { prev: 0, cur: 1, step: 0, steps: 3, side: 0 });
    assert_eq!(v[3], StripVertex { prev: 1, cur: 2, step: 1, steps: 3, side: 1 });
    let live = strip_for(3, true);
    assert_eq!(live.len(), 6);
    assert_eq!(live[5], StripVertex { prev: 2, cur: 3, step: 2, steps: 3, side: 1 });
    assert!(strip_for(1, true).is_empty());
    assert!(strip_for(1, false).is_empty());
}

#[test]
fn batch_smooth_keeps_ends() {
    let mut t: Trail3D<Pos> = Trail3D::new(10);
    for i in 0..4 {
        t.add_trail_point([i as f64, 0.0, 0.0]);
    }
    let triples = t.interior_triples();
    assert_eq!(triples.len(), 2);
    assert_eq!(triples[1].0.id, 1);
    assert_eq!(triples[1].2.id, 3);
    let groups: Vec<Vec<(Pos, i64)>> = triples
        .iter()
        .map(|(_, m, _)| vec![(m.transform, 1), (m.transform, 2)])
        .collect();
    t.smooth(groups);
    assert_eq!(t.points.len(), 6);
    assert_eq!(t.points[0].id, 0);
    assert_eq!(t.points[5].id, 3);
    let ids: Vec<u64> = t.points[1..5].iter().map(|p| p.id).collect();
    assert_eq!(ids, vec![4, 5, 6, 7]);
    assert_eq!(t.points[3].transform, [2.0, 0.0, 0.0]);
}

#[test]
fn batch_smooth_short_list_unchanged() {
    let mut t: Trail3D<Pos> = Trail3D::new(10);
    t.add_trail_point([0.0; 3]);
    t.add_trail_point([1.0; 3]);
    assert!(t.interior_triples().is_empty());
    t.smooth(Vec::new());
    assert_eq!(t.points.len(), 2);
    assert_eq!(t.next_id, 2);
    t.clear_trail_points();
    assert!(t.points.is_empty());
}

#[test]
fn live_points_and_actions() {
    let mut t: Trail3D<Pos> = Trail3D::new(10);
    assert!(t.live_points().is_none());
    assert_eq!(t.next_action(), Action::Emit);
    t.store = vec![pt(0, 5)];
    t.temp_segment = vec![pt(1, 5)];
    t.c = Some(pt(2, 5));
    let live = t.live_points().unwrap();
    assert_eq!(live.iter().map(|p| p.id).collect::<Vec<_>>(), vec![0, 1, 2]);
    t.emit = false;
    assert_eq!(t.next_action(), Action::Idle);
    assert!(t.render(false));
    assert!(!t.render(true));
    assert_eq!(t.next_action(), Action::RenderManual);
    t.remove_point(0);
    assert!(t.store.is_empty());
}
