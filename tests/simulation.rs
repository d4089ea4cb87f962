use cellular_automaton::automaton::Automaton;
use cellular_automaton::rules::still::Still;
use cellular_automaton::image::{num_to_rgb, transform, FlatImg, ToImage};
use cellular_automaton::rules::game_of_life::new_gol_automaton;
use cellular_automaton::simulation::{Command, Simulation};
use std::time::Duration;

#[test]
fn palette_colors() {
    assert_eq!(num_to_rgb(0), [255, 255, 255]);
    assert_eq!(num_to_rgb(1), [0, 0, 0]);
    assert_eq!(num_to_rgb(2), [255, 0, 0]);
    assert_eq!(num_to_rgb(6), [0, 255, 255]);
    assert_eq!(num_to_rgb(9), [128, 0, 128]);
    assert_eq!(num_to_rgb(10), [0, 0, 0]);
    assert_eq!(num_to_rgb(u64::MAX), [0, 0, 0]);
}

#[test]
fn image_of_small_grid() {
    let g: Vec<Vec<u8>> = vec![vec![0, 2], vec![3, 4]];
    let img = FlatImg::from_2d_vec(&g);
    assert_eq!(img.width, 2);
    assert_eq!(img.height, 2);
    assert_eq!(img.img, vec![255, 255, 255, 255, 0, 0, 0, 255, 0, 0, 0, 255]);
    let empty: Vec<Vec<u8>> = Vec::new();
    let e = FlatImg::from_2d_vec(&empty);
    assert_eq!((e.width, e.height, e.img.len()), (0, 0, 0));
}

#[test]
fn transform_of_equal_grids_is_equal() {
    let a: Vec<Vec<u8>> = vec![vec![1, 5, 7], vec![0, 9, 12]];
    let b = a.clone();
    let x = transform(&a, &());
    let y = transform(&b, &(3u8, 4u8));
    assert_eq!(x.img, y.img);
    assert_eq!((x.width, x.height), (y.width, y.height));
    assert_eq!((x.width, x.height), (3, 2));
}

#[test]
fn identity_rule_keeps_image_and_counts_step() {
    let aut = Automaton::new(10, 10, Still { category: 1 });
    let (mut sim, out, cmd) = Simulation::new(aut, ToImage, Duration::from_millis(0));
    sim.send_state();
    let first = out.recv().unwrap();
    assert_eq!(first.step, 0);
    assert_eq!(first.data.img, vec![0u8; 300]);
    cmd.send(Command::SingleStep).unwrap();
    assert_eq!(sim.tick(), None);
    let second = out.recv().unwrap();
    assert_eq!(second.step, 1);
    assert_eq!(second.data.img, first.data.img);
}

#[test]
fn single_step_while_running_is_ignored() {
    let (mut sim, out, cmd) = Simulation::new(new_gol_automaton(6, 6), ToImage, Duration::from_millis(0));
    cmd.send(Command::Start).unwrap();
    assert_eq!(sim.tick(), Some(Duration::from_millis(0)));
    let s1 = out.recv().unwrap();
    assert_eq!((s1.step, s1.running), (1, true));
    cmd.send(Command::SingleStep).unwrap();
    sim.tick();
    let s2 = out.recv().unwrap();
    assert_eq!((s2.step, s2.running), (2, true));
    assert!(out.try_recv().is_err());
}

#[test]
fn single_step_while_stopped_publishes_once() {
    let (mut sim, out, cmd) = Simulation::new(new_gol_automaton(6, 6), ToImage, Duration::from_millis(0));
    cmd.send(Command::SingleStep).unwrap();
    assert_eq!(sim.tick(), None);
    let s = out.recv().unwrap();
    assert_eq!((s.step, s.running), (1, false));
    assert!(out.try_recv().is_err());
}

#[test]
fn reset_stops_and_zeroes_step() {
    let (mut sim, out, cmd) = Simulation::new(new_gol_automaton(6, 6), ToImage, Duration::from_millis(0));
    cmd.send(Command::Start).unwrap();
    sim.tick();
    sim.tick();
    out.recv().unwrap();
    out.recv().unwrap();
    cmd.send(Command::Reset(4, 9)).unwrap();
    assert_eq!(sim.tick(), None);
    let s = out.recv().unwrap();
    assert_eq!((s.step, s.running), (0, false));
    assert_eq!((s.data.height, s.data.width), (4, 9));
    assert!(out.try_recv().is_err());
}

#[test]
fn zero_delay_keeps_running_without_commands() {
    let (mut sim, out, cmd) = Simulation::new(new_gol_automaton(8, 8), ToImage, Duration::from_millis(50));
    cmd.send(Command::ChangeDelay(Duration::from_millis(0))).unwrap();
    cmd.send(Command::Start).unwrap();
    assert_eq!(sim.tick(), None);
    for k in 1..=5u64 {
        assert_eq!(sim.tick(), Some(Duration::from_millis(0)));
        let s = out.recv().unwrap();
        assert_eq!((s.step, s.running), (k, true));
    }
}

#[test]
fn stop_then_start_apply_in_order() {
    let (mut sim, out, cmd) = Simulation::new(new_gol_automaton(5, 5), ToImage, Duration::from_millis(0));
    cmd.send(Command::Start).unwrap();
    cmd.send(Command::Stop).unwrap();
    assert_eq!(sim.tick(), Some(Duration::from_millis(0)));
    assert_eq!(out.recv().unwrap().step, 1);
    assert_eq!(sim.tick(), None);
    assert!(out.try_recv().is_err());
}

#[test]
fn apply_command_directly() {
    let (mut sim, out, _cmd) = Simulation::new(new_gol_automaton(5, 5), ToImage, Duration::from_millis(0));
    sim.apply_command(Command::Reset(2, 3));
    let s = out.recv().unwrap();
    assert_eq!((s.step, s.running, s.data.height, s.data.width), (0, false, 2, 3));
    sim.apply_command(Command::SingleStep);
    assert_eq!(out.recv().unwrap().step, 1);
}

#[test]
fn disconnected_commands_do_not_block() {
    let (mut sim, _out, cmd) = Simulation::new(new_gol_automaton(5, 5), ToImage, Duration::from_millis(0));
    drop(cmd);
    assert_eq!(sim.tick(), None);
    assert_eq!(sim.tick(), None);
}

#[test]
fn snapshot_shows_current_state() {
    let aut = Automaton::new(3, 4, Still { category: 2 });
    let (mut sim, out, _cmd) = Simulation::new(aut, ToImage, Duration::from_millis(0));
    let s = sim.snapshot();
    assert_eq!((s.step, s.running, s.data.height, s.data.width), (0, false, 3, 4));
    assert_eq!(s.data.img, [255u8, 0, 0].repeat(12));
    sim.send_state();
    let p = out.recv().unwrap();
    assert_eq!(p.data.img, s.data.img);
    assert_eq!((p.step, p.running), (0, false));
}
