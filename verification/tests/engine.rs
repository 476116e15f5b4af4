use rota_gen::config::{Config, Dates, ErrorKind, Nurse, People, Supporter, NursesJob};
use rota_gen::table::{generate_table, RotaTable};

fn nurse(name: &str) -> Nurse {
    Nurse { name: name.to_string(), days: None, trainee: None, rooms: None }
}

fn supporter(name: &str) -> Supporter {
    Supporter { name: name.to_string(), days: None }
}

fn job(name: &str, for_trainees: Option<bool>) -> NursesJob {
    NursesJob { name: name.to_string(), for_trainees }
}

fn base_cfg(
    nurses: Vec<Nurse>,
    supporters: Vec<Supporter>,
    jobs: Vec<NursesJob>,
    rooms: Vec<&str>,
    start_day: &str,
    start: usize,
    end: usize,
) -> Config {
    Config {
        people: People { nurses, supporters },
        nurses_jobs: jobs,
        rooms: rooms.into_iter().map(|r| r.to_string()).collect(),
        dates: Dates {
            month: "january".to_string(),
            start_day: start_day.to_string(),
            start,
            end,
            year: 2024,
        },
        excel: None,
        job_room_sep: None,
    }
}

fn labels_of(t: &RotaTable, row: usize) -> Vec<String> {
    t.nurses[row].labels.clone()
}

#[test]
fn six_nurses_fill_six_slots_with_no_off() {
    // Three rooms and two jobs give six room/job slots for six nurses:
    // nobody is ever off, and every label is "<room> <job>".
    let cfg = base_cfg(
        vec![nurse("n1"), nurse("n2"), nurse("n3"), nurse("n4"), nurse("n5"), nurse("n6")],
        vec![supporter("s1"), supporter("s2"), supporter("s3")],
        vec![job("x", None), job("y", None)],
        vec!["a", "b", "c"],
        "monday",
        1,
        7,
    );
    let t = generate_table(&cfg).unwrap();
    assert_eq!(t.header.len(), 5); // monday .. friday; 6 and 7 are the weekend
    assert_eq!(t.nurses.len(), 6);
    for row in 0..6 {
        let labels = labels_of(&t, row);
        assert_eq!(labels.len(), 5);
        for l in &labels {
            assert_ne!(l, "off");
            let mut parts = l.split(' ');
            let room = parts.next().unwrap();
            let jobname = parts.next().unwrap();
            assert!(parts.next().is_none());
            assert!(["a", "b", "c"].contains(&room));
            assert!(["x", "y"].contains(&jobname));
        }
    }
    // No slot is handed to two nurses on the same day.
    for day in 0..5 {
        let mut seen: Vec<String> = (0..6).map(|row| t.nurses[row].labels[day].clone()).collect();
        seen.sort();
        seen.dedup();
        assert_eq!(seen.len(), 6);
    }
}

#[test]
fn seventh_nurse_rotates_through_the_off_slot() {
    // One more nurse than room/job slots: the pool gains one off slot,
    // and exactly one nurse per day is labelled "off", rotating with the
    // raw day-of-month offset.
    let cfg = base_cfg(
        vec![
            nurse("n1"),
            nurse("n2"),
            nurse("n3"),
            nurse("n4"),
            nurse("n5"),
            nurse("n6"),
            nurse("n7"),
        ],
        vec![supporter("s1"), supporter("s2"), supporter("s3")],
        vec![job("x", None), job("y", None)],
        vec!["a", "b", "c"],
        "monday",
        1,
        8,
    );
    let t = generate_table(&cfg).unwrap();
    // working days: 1..5 (mon..fri) and 8 (the next monday)
    assert_eq!(t.header.len(), 6);
    let doms = [1usize, 2, 3, 4, 5, 8];
    for (day, dom) in doms.iter().enumerate() {
        let off_rows: Vec<usize> =
            (0..7).filter(|&row| t.nurses[row].labels[day] == "off").collect();
        // nurse i pops the slot at cyclic position (dom + 6 - i) mod 7;
        // the off slot sits at pool position 6, so nurse (dom mod 7) gets it
        assert_eq!(off_rows, vec![dom % 7]);
    }
}

#[test]
fn trainee_takes_last_eligible_slot_but_first_is_removed() {
    // Jobs: "a" open to trainees (flag unset), "b" closed. The trainee is
    // assigned the last eligible slot of the window while the first
    // eligible one is removed, so the same label can be handed out twice
    // on one day: pinned here exactly.
    let mut trainee = nurse("t1");
    trainee.trainee = Some(true);
    let cfg = base_cfg(
        vec![trainee, nurse("n2"), nurse("n3"), nurse("n4")],
        vec![supporter("s1"), supporter("s2")],
        vec![job("a", None), job("b", Some(false))],
        vec!["r1", "r2"],
        "monday",
        1,
        5,
    );
    let t = generate_table(&cfg).unwrap();
    assert_eq!(t.header.len(), 5);
    // The trainee never receives the closed job "b".
    assert_eq!(t.nurses[0].labels, vec!["r1 a", "r1 a", "r2 a", "r2 a", "r1 a"]);
    // Day one window (day-of-month 1): [r1 b, r2 a, r2 b, r1 a]. The
    // trainee takes the label of the last eligible slot ("r1 a"), but the
    // first eligible slot ("r2 a") is what leaves the window, so the next
    // nurse pops "r1 a" as well: one slot's label appears twice.
    assert_eq!(t.nurses[1].labels[0], "r1 a");
    assert_eq!(t.nurses[2].labels[0], "r2 b");
    assert_eq!(t.nurses[3].labels[0], "r1 b");
}

#[test]
fn window_is_one_shorter_than_the_inclusive_day_count() {
    // The day window holds end - start slots. Six nurses over the range
    // 1..=5 face a four-slot window, so the fifth consumer finds it
    // empty: the run aborts with the exhaustion error.
    let cfg = base_cfg(
        vec![nurse("n1"), nurse("n2"), nurse("n3"), nurse("n4"), nurse("n5"), nurse("n6")],
        vec![],
        vec![job("x", None), job("y", None)],
        vec!["a", "b", "c"],
        "monday",
        1,
        5,
    );
    let r = generate_table(&cfg);
    assert!(matches!(r, Err(ErrorKind::NoJobVariantsLeft)));
}

#[test]
fn trainee_with_no_eligible_slot_aborts() {
    let mut trainee = nurse("t1");
    trainee.trainee = Some(true);
    let cfg = base_cfg(
        vec![trainee],
        vec![],
        vec![job("b", Some(false))],
        vec!["r1"],
        "monday",
        1,
        2,
    );
    let r = generate_table(&cfg);
    assert!(matches!(r, Err(ErrorKind::NoTraineeJobVariantsLeft)));
}

#[test]
fn too_few_nurses_for_the_rooms_and_jobs() {
    let cfg = base_cfg(
        vec![nurse("n1"), nurse("n2"), nurse("n3")],
        vec![],
        vec![job("x", None), job("y", None)],
        vec!["a", "b"],
        "monday",
        1,
        5,
    );
    let r = generate_table(&cfg);
    assert!(matches!(r, Err(ErrorKind::NotEnoughNurses)));
}

#[test]
fn too_few_supporters_for_the_rooms() {
    let cfg = base_cfg(
        vec![nurse("n1"), nurse("n2")],
        vec![supporter("s1")],
        vec![job("x", None)],
        vec!["a", "b"],
        "monday",
        1,
        5,
    );
    let r = generate_table(&cfg);
    assert!(matches!(r, Err(ErrorKind::NotEnoughSupporters)));
}

#[test]
fn day_restricted_nurse_is_off_part_time() {
    // A nurse who only works mondays is labelled "off (part time)" on
    // every other working day, whatever the rotation does.
    let mut part_timer = nurse("p1");
    part_timer.days = Some(vec!["monday".to_string()]);
    let cfg = base_cfg(
        vec![part_timer, nurse("n2"), nurse("n3"), nurse("n4"), nurse("n5")],
        vec![supporter("s1"), supporter("s2")],
        vec![job("x", None)],
        vec!["a", "b"],
        "monday",
        1,
        7,
    );
    let t = generate_table(&cfg).unwrap();
    assert_eq!(t.header.len(), 5);
    let labels = &t.nurses[0].labels;
    assert_ne!(labels[0], "off (part time)"); // monday: works
    for day in 1..5 {
        assert_eq!(labels[day], "off (part time)");
    }
}

#[test]
fn day_restricted_supporter_is_off_day() {
    let mut part_timer = supporter("s1");
    part_timer.days = Some(vec!["tuesday".to_string()]);
    let cfg = base_cfg(
        vec![nurse("n1")],
        vec![part_timer, supporter("s2")],
        vec![job("x", None)],
        vec!["a"],
        "monday",
        1,
        5,
    );
    let t = generate_table(&cfg).unwrap();
    let labels = &t.supporters[0].labels;
    assert_eq!(labels.len(), 5);
    assert_eq!(labels[0], "off-day"); // monday
    assert_ne!(labels[1], "off-day"); // tuesday: works
    for day in 2..5 {
        assert_eq!(labels[day], "off-day");
    }
}

#[test]
fn supporters_consume_one_shared_cyclic_iterator() {
    // Pool: [a, b, off]; on day-of-month 1 the iterator starts at
    // position 1, so the supporters get b, off, a in configured order.
    let cfg = base_cfg(
        vec![nurse("n1"), nurse("n2")],
        vec![supporter("s1"), supporter("s2"), supporter("s3")],
        vec![job("x", None)],
        vec!["a", "b"],
        "monday",
        1,
        3,
    );
    let t = generate_table(&cfg).unwrap();
    assert_eq!(t.header.len(), 3);
    assert_eq!(t.supporters[0].labels[0], "b");
    assert_eq!(t.supporters[1].labels[0], "off");
    assert_eq!(t.supporters[2].labels[0], "a");
    // day-of-month 2 starts one position further
    assert_eq!(t.supporters[0].labels[1], "off");
    assert_eq!(t.supporters[1].labels[1], "a");
    assert_eq!(t.supporters[2].labels[1], "b");
}

#[test]
fn custom_job_room_separator() {
    let mut cfg = base_cfg(
        vec![nurse("n1")],
        vec![supporter("s1")],
        vec![job("x", None)],
        vec!["a"],
        "monday",
        1,
        2,
    );
    cfg.job_room_sep = Some("-".to_string());
    let t = generate_table(&cfg).unwrap();
    assert_eq!(t.nurses[0].labels, vec!["a-x", "a-x"]);
}

#[test]
fn running_twice_gives_identical_tables() {
    let mut part_timer = nurse("p1");
    part_timer.days = Some(vec!["friday".to_string()]);
    let cfg = base_cfg(
        vec![part_timer, nurse("n2"), nurse("n3"), nurse("n4")],
        vec![supporter("s1"), supporter("s2")],
        vec![job("x", None), job("y", Some(false))],
        vec!["a", "b"],
        "wednesday",
        3,
        14,
    );
    let t1 = generate_table(&cfg).unwrap();
    let t2 = generate_table(&cfg).unwrap();
    assert_eq!(t1.header, t2.header);
    assert_eq!(t1.nurses.len(), t2.nurses.len());
    for (r1, r2) in t1.nurses.iter().zip(t2.nurses.iter()) {
        assert_eq!(r1.name, r2.name);
        assert_eq!(r1.labels, r2.labels);
    }
    assert_eq!(t1.supporters.len(), t2.supporters.len());
    for (r1, r2) in t1.supporters.iter().zip(t2.supporters.iter()) {
        assert_eq!(r1.name, r2.name);
        assert_eq!(r1.labels, r2.labels);
    }
}

#[test]
fn header_and_every_row_have_one_label_per_working_day() {
    let cfg = base_cfg(
        vec![nurse("n1"), nurse("n2"), nurse("n3"), nurse("n4"), nurse("n5"), nurse("n6")],
        vec![supporter("s1"), supporter("s2")],
        vec![job("x", None)],
        vec!["a", "b"],
        "thursday",
        1,
        14,
    );
    let t = generate_table(&cfg).unwrap();
    // day 1 thursday; weekends on 3/4 and 10/11: working 1,2,5,6,7,8,9,12,13,14
    assert_eq!(t.header.len(), 10);
    for row in &t.nurses {
        assert_eq!(row.labels.len(), 10);
    }
    for row in &t.supporters {
        assert_eq!(row.labels.len(), 10);
    }
}

#[test]
fn empty_range_gives_empty_rows() {
    let cfg = base_cfg(
        vec![nurse("n1")],
        vec![supporter("s1")],
        vec![job("x", None)],
        vec!["a"],
        "monday",
        5,
        3,
    );
    let t = generate_table(&cfg).unwrap();
    assert_eq!(t.header.len(), 0);
    assert_eq!(t.nurses[0].labels.len(), 0);
    assert_eq!(t.supporters[0].labels.len(), 0);
}

#[test]
fn rows_keep_configured_person_order() {
    let cfg = base_cfg(
        vec![nurse("zeta"), nurse("alpha")],
        vec![supporter("omega"), supporter("beta")],
        vec![job("x", None)],
        vec!["a"],
        "monday",
        1,
        3,
    );
    let t = generate_table(&cfg).unwrap();
    assert_eq!(t.nurses[0].name, "zeta");
    assert_eq!(t.nurses[1].name, "alpha");
    assert_eq!(t.supporters[0].name, "omega");
    assert_eq!(t.supporters[1].name, "beta");
}
