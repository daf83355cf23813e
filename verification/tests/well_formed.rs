use rum::instructions::lp;
use rum::instructions::mapseg;
use rum::instructions::store;
use rum::instructions::umapseg;
use rum::machine::Event;
use rum::um::Um;

fn by_hand(mem: Vec<Option<Vec<u32>>>, empty_keys: Vec<u32>) -> Um {
    Um { reg: [0; 8], mem, program_counter: 0, empty_keys }
}

#[test]
fn a_machine_set_up_with_a_program_is_well_formed() {
    let mut um = by_hand(vec![], vec![7, 7]);
    assert!(!um.is_wf());
    um.initialize_program(vec![1, 2, 3]);
    assert!(um.is_wf());
    um.initialize_program(vec![]);
    assert!(um.is_wf());
}

#[test]
fn a_machine_without_segments_is_not_well_formed() {
    assert!(!by_hand(vec![], vec![]).is_wf());
}

#[test]
fn a_machine_without_its_program_is_not_well_formed() {
    assert!(!by_hand(vec![None], vec![]).is_wf());
    assert!(!by_hand(vec![None], vec![0]).is_wf());
    assert!(!by_hand(vec![None, Some(vec![1])], vec![0]).is_wf());
}

#[test]
fn the_free_pool_must_hold_every_unmapped_identifier() {
    assert!(by_hand(vec![Some(vec![]), None], vec![1]).is_wf());
    assert!(!by_hand(vec![Some(vec![]), None], vec![]).is_wf());
    assert!(by_hand(vec![Some(vec![]), None, Some(vec![4]), None], vec![3, 1]).is_wf());
    assert!(by_hand(vec![Some(vec![]), None, Some(vec![4]), None], vec![1, 3]).is_wf());
    assert!(!by_hand(vec![Some(vec![]), None, Some(vec![4]), None], vec![3]).is_wf());
}

#[test]
fn the_free_pool_must_hold_unmapped_identifiers_only() {
    assert!(!by_hand(vec![Some(vec![]), Some(vec![])], vec![1]).is_wf());
    assert!(!by_hand(vec![Some(vec![])], vec![0]).is_wf());
    assert!(!by_hand(vec![Some(vec![])], vec![1]).is_wf());
    assert!(!by_hand(vec![Some(vec![]), None], vec![1, 2]).is_wf());
    assert!(!by_hand(vec![Some(vec![]), None], vec![u32::MAX, 1]).is_wf());
}

#[test]
fn the_free_pool_must_hold_each_identifier_once() {
    assert!(!by_hand(vec![Some(vec![]), None], vec![1, 1]).is_wf());
    assert!(!by_hand(vec![Some(vec![]), None, None], vec![1, 2, 1]).is_wf());
    assert!(by_hand(vec![Some(vec![]), None, None], vec![1, 2]).is_wf());
}

#[test]
fn registers_and_program_counter_do_not_matter() {
    let mut um = by_hand(vec![Some(vec![1])], vec![]);
    um.reg = [u32::MAX; 8];
    um.program_counter = 1_000_000;
    assert!(um.is_wf());
}

#[test]
fn the_memory_instructions_keep_the_machine_well_formed() {
    let mut um = by_hand(vec![], vec![]);
    um.initialize_program(vec![9, 9]);
    for round in 0..60u32 {
        um.reg[1] = round % 5;
        assert_eq!(mapseg(&mut um, 2, 1), Ok(()));
        assert!(um.is_wf());
        if round % 5 != 0 {
            um.reg[3] = 0;
            um.reg[4] = round;
            assert_eq!(store(&mut um, 2, 3, 4), Ok(()));
            assert!(um.is_wf());
        }
        if round % 3 == 1 {
            assert_eq!(umapseg(&mut um, 2), Ok(()));
            assert!(um.is_wf());
        } else if round % 7 == 0 {
            assert_eq!(lp(&mut um, 2, 3), Ok(()));
            assert!(um.is_wf());
        }
    }
    assert!(um.empty_keys.len() <= 1);
}

#[test]
fn a_running_program_keeps_the_machine_well_formed() {
    // maps a segment of r1 words, unmaps the one mapped before, adds one to r1, starts over
    let program = vec![
        (8 << 28) | (2 << 3) | 1,
        (9 << 28) | 4,
        (3 << 28) | (1 << 6) | (1 << 3) | 5,
        (3 << 28) | (4 << 6) | (2 << 3) | 6,
        (12 << 28) | (6 << 3) | 6,
    ];
    let mut um = by_hand(vec![], vec![]);
    um.initialize_program(program);
    um.reg[5] = 1;
    // the first unmap needs a segment to work on
    um.reg[7] = 0;
    assert_eq!(mapseg(&mut um, 4, 7), Ok(()));
    for _ in 0..200 {
        assert_eq!(um.step(), Event::Continue);
        assert!(um.is_wf());
    }
    assert_eq!(um.reg[1], 40);
    assert_eq!(um.mem.iter().filter(|slot| slot.is_some()).count(), 2);
}
