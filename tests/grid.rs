use sandgrid::grid::ConwayGrid;
use sandgrid::particle::Particle;

fn actives(g: &ConwayGrid) -> Vec<bool> {
    g.particles().iter().map(|p| p.active).collect()
}

fn cell(active: bool, heat: u8) -> Particle {
    Particle { active, already_updated: false, heat }
}

#[test]
fn new_empty_is_blank() {
    let g = ConwayGrid::new_empty(3, 2);
    assert_eq!(g.width(), 3);
    assert_eq!(g.height(), 2);
    assert_eq!(g.particles().len(), 6);
    assert!(g.particles().iter().all(|p| *p == Particle::new(false, false)));
}

#[test]
fn from_particles_checks_size() {
    assert!(ConwayGrid::from_particles(2, 2, vec![cell(false, 0); 3]).is_none());
    assert!(ConwayGrid::from_particles(0, 2, vec![]).is_none());
    assert!(ConwayGrid::from_particles(2, 0, vec![]).is_none());
    assert!(ConwayGrid::from_particles(usize::MAX, 2, vec![]).is_none());
    let g = ConwayGrid::from_particles(2, 2, vec![cell(true, 255); 4]).unwrap();
    assert_eq!(actives(&g), vec![true; 4]);
}

#[test]
fn grid_idx_inside() {
    let g = ConwayGrid::new_empty(4, 3);
    assert_eq!(g.grid_idx(0, 0), Some(0));
    assert_eq!(g.grid_idx(3, 0), Some(3));
    assert_eq!(g.grid_idx(1, 2), Some(9));
    assert_eq!(g.grid_idx(3, 2), Some(11));
}

#[test]
fn grid_idx_outside_is_none() {
    let g = ConwayGrid::new_empty(4, 3);
    assert_eq!(g.grid_idx(4, 0), None);
    assert_eq!(g.grid_idx(0, 3), None);
    assert_eq!(g.grid_idx(-1, 0), None);
    assert_eq!(g.grid_idx(0, -1), None);
    assert_eq!(g.grid_idx(isize::MIN, isize::MAX), None);
}

#[test]
fn toggle_outside_changes_nothing() {
    let mut g = ConwayGrid::new_empty(2, 2);
    g.toggle(0, 0);
    let before = g.clone();
    assert!(!g.toggle(2, 0));
    assert!(!g.toggle(0, 2));
    assert!(!g.toggle(-1, 1));
    assert!(!g.toggle(1, -1));
    assert_eq!(g.particles(), before.particles());
}

#[test]
fn toggle_flips_cell() {
    let mut g = ConwayGrid::new_empty(2, 2);
    assert!(g.toggle(1, 1));
    assert_eq!(g.particles()[3], cell(true, 255));
    assert!(!g.toggle(1, 1));
    assert_eq!(g.particles()[3], cell(false, 254));
}

#[test]
fn update_moves_sand_one_row() {
    let mut g = ConwayGrid::new_empty(1, 3);
    g.toggle(0, 0);
    g.update();
    assert_eq!(actives(&g), vec![false, true, false]);
    g.update();
    assert_eq!(actives(&g), vec![false, false, true]);
    g.update();
    assert_eq!(actives(&g), vec![false, false, true]);
}

#[test]
fn update_keeps_heat_coupled() {
    let mut g = ConwayGrid::new_empty(1, 2);
    g.toggle(0, 0);
    g.update();
    assert_eq!(g.particles()[0], cell(false, 254));
    assert_eq!(g.particles()[1], cell(true, 255));
}

#[test]
fn update_blocked_sand_stays() {
    let mut g = ConwayGrid::new_empty(1, 3);
    g.toggle(0, 0);
    g.toggle(0, 1);
    g.update();
    assert_eq!(actives(&g), vec![true, false, true]);
}

#[test]
fn update_bottom_row_stays() {
    let mut g = ConwayGrid::new_empty(2, 2);
    g.toggle(0, 1);
    g.toggle(1, 1);
    g.update();
    assert_eq!(actives(&g), vec![false, false, true, true]);
}

#[test]
fn update_single_move_per_tick() {
    let mut g = ConwayGrid::new_empty(3, 4);
    g.toggle(1, 0);
    g.toggle(2, 1);
    g.update();
    assert_eq!(
        actives(&g),
        vec![false, false, false, false, true, false, false, false, true, false, false, false]
    );
}

#[test]
fn update_clears_guards() {
    let mut g = ConwayGrid::new_empty(2, 3);
    g.toggle(0, 0);
    g.toggle(1, 1);
    g.update();
    assert!(g.particles().iter().all(|p| !p.already_updated));
}

#[test]
fn update_clears_guards_given_set() {
    let cells = vec![
        Particle { active: true, already_updated: true, heat: 255 },
        cell(false, 0),
    ];
    let mut g = ConwayGrid::from_particles(1, 2, cells).unwrap();
    g.update();
    assert_eq!(actives(&g), vec![true, false]);
    assert!(g.particles().iter().all(|p| !p.already_updated));
}

#[test]
fn update_is_deterministic() {
    let mut a = ConwayGrid::new_empty(5, 5);
    for i in 0..5 {
        a.toggle(i, (i * 2) % 5);
        a.toggle((i + 2) % 5, i);
    }
    let mut b = a.clone();
    a.update();
    b.update();
    assert_eq!(a.particles(), b.particles());
}

#[test]
fn draw_inactive_heat_scenario() {
    let g = ConwayGrid::from_particles(2, 1, vec![cell(false, 10), cell(false, 20)]).unwrap();
    let mut buf = vec![9u8; 8];
    g.draw(&mut buf);
    assert_eq!(buf, vec![0, 0, 10, 255, 0, 0, 20, 255]);
}

#[test]
fn draw_active_is_cyan() {
    let mut g = ConwayGrid::new_empty(2, 1);
    g.toggle(1, 0);
    let mut buf = vec![0u8; 8];
    g.draw(&mut buf);
    assert_eq!(buf, vec![0, 0, 0, 255, 0, 255, 255, 255]);
}

#[test]
fn set_line_horizontal() {
    let mut g = ConwayGrid::new_empty(4, 2);
    g.set_line(0, 0, 3, 0, true);
    assert_eq!(actives(&g), vec![true, true, true, true, false, false, false, false]);
    g.set_line(0, 0, 3, 0, false);
    assert!(g.particles()[..4].iter().all(|p| *p == cell(false, 254)));
}

#[test]
fn set_line_stops_leaving_grid() {
    let mut g = ConwayGrid::new_empty(3, 3);
    g.set_line(0, 0, 5, 0, true);
    assert_eq!(actives(&g), vec![true, true, true, false, false, false, false, false, false]);
}

#[test]
fn set_line_start_clamped_to_edge_draws_nothing() {
    let mut g = ConwayGrid::new_empty(3, 3);
    g.set_line(7, 1, 0, 1, true);
    assert!(g.particles().iter().all(|p| !p.active));
}

#[test]
fn set_line_negative_start_clamped_to_zero() {
    let mut g = ConwayGrid::new_empty(3, 3);
    g.set_line(-5, -5, 2, 2, true);
    assert_eq!(actives(&g), vec![true, false, false, false, true, false, false, false, true]);
}

#[test]
fn randomize_seeded_is_deterministic() {
    let mut a = ConwayGrid::new_empty(10, 10);
    a.toggle(3, 3);
    let mut b = a.clone();
    a.randomize_seeded((12345, 678));
    b.randomize_seeded((12345, 678));
    assert_eq!(a.particles(), b.particles());
    assert!(a.particles().iter().all(|p| !p.already_updated));
}

#[test]
fn randomize_seeded_fill_threshold_is_never_met() {
    let mut a = ConwayGrid::new_empty(10, 10);
    a.set_line(0, 0, 9, 9, true);
    a.randomize_seeded((1, 2));
    assert!(a.particles().iter().all(|p| *p == Particle::new(false, false)));
}

#[test]
fn new_random_has_requested_size() {
    let g = ConwayGrid::new_random(10, 10).unwrap();
    assert_eq!(g.width(), 10);
    assert_eq!(g.height(), 10);
    assert_eq!(g.particles().len(), 100);
    assert!(g.particles().iter().all(|p| !p.already_updated));
}

#[test]
fn grid_idx_usize_inside_and_outside() {
    let g = ConwayGrid::new_empty(4, 3);
    assert_eq!(g.grid_idx_usize(1, 2), Some(9));
    assert_eq!(g.grid_idx_usize(3, 2), Some(11));
    assert_eq!(g.grid_idx_usize(4, 0), None);
    assert_eq!(g.grid_idx_usize(0, 3), None);
    assert_eq!(g.grid_idx_usize(usize::MAX, usize::MAX), None);
}

#[test]
fn try_draw_wrong_length_fails() {
    let g = ConwayGrid::from_particles(2, 1, vec![cell(false, 10), cell(false, 20)]).unwrap();
    let mut short = vec![7u8; 7];
    assert!(!g.try_draw(&mut short));
    assert_eq!(short, vec![7u8; 7]);
    let mut long = vec![7u8; 9];
    assert!(!g.try_draw(&mut long));
    assert_eq!(long, vec![7u8; 9]);
}

#[test]
fn try_draw_right_length_draws() {
    let g = ConwayGrid::from_particles(2, 1, vec![cell(false, 10), cell(false, 20)]).unwrap();
    let mut buf = vec![9u8; 8];
    assert!(g.try_draw(&mut buf));
    assert_eq!(buf, vec![0, 0, 10, 255, 0, 0, 20, 255]);
}
