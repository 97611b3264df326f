use memdiff::generator::IndexPolicy;
use memdiff::generator::command_from_draws;
use memdiff::generator::generate_command;
use memdiff::simulator::Command;

#[test]
fn draws_map_to_commands_by_kind_byte() {
    assert_eq!(command_from_draws(0, 2, 9), Command::Read(2));
    assert_eq!(command_from_draws(1, 3, 7), Command::Write(3, 7));
    assert_eq!(command_from_draws(2, 0, 0), Command::Product);
    assert_eq!(command_from_draws(3, 0, 0), Command::Sum);
    assert_eq!(command_from_draws(250, 1, 1), Command::Sum);
}

#[test]
fn valid_only_policy_never_probes_out_of_bounds() {
    let mut g = quickcheck::Gen::new(64);
    for _ in 0..300 {
        match generate_command(&mut g, IndexPolicy::ValidOnly) {
            Command::Read(i) => assert!(i < 4),
            Command::Write(i, _) => assert!(i < 4),
            Command::Sum | Command::Product => {}
        }
    }
}

#[test]
fn with_probe_policy_stays_within_the_probe_set() {
    let mut g = quickcheck::Gen::new(64);
    for _ in 0..300 {
        match generate_command(&mut g, IndexPolicy::WithProbe) {
            Command::Read(i) => assert!(i <= 4),
            Command::Write(i, _) => assert!(i <= 4),
            Command::Sum | Command::Product => {}
        }
    }
}

#[test]
fn all_four_command_kinds_are_generated() {
    let mut g = quickcheck::Gen::new(64);
    let mut seen = [false; 4];
    for _ in 0..600 {
        let kind: usize = match generate_command(&mut g, IndexPolicy::WithProbe) {
            Command::Read(_) => 0,
            Command::Write(_, _) => 1,
            Command::Sum => 2,
            Command::Product => 3,
        };
        seen[kind] = true;
    }
    assert_eq!(seen, [true; 4]);
}

#[test]
fn same_seed_gives_the_same_command_sequence() {
    let mut g1 = quickcheck::Gen::from_size_and_seed(64, 12345);
    let mut g2 = quickcheck::Gen::from_size_and_seed(64, 12345);
    for _ in 0..100 {
        let c1 = generate_command(&mut g1, IndexPolicy::WithProbe);
        let c2 = generate_command(&mut g2, IndexPolicy::WithProbe);
        assert_eq!(c1, c2);
    }
}
