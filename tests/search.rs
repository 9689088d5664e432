use beam_search::{pick_winner, run_plan, FanInError, Material, RunReport, RunSpec, Topology};

fn report(run: usize, score: i64) -> RunReport {
    RunReport { run, score }
}

#[test]
fn plan_covers_every_shape_and_material_once() {
    let plan = run_plan(&Material::all());
    assert_eq!(plan.len(), 21);
    for m in Material::all() {
        for t in [Topology::Rectangular, Topology::Tee, Topology::I] {
            let n = plan.iter().filter(|r| **r == RunSpec { topology: t, material: m }).count();
            assert_eq!(n, 1);
        }
    }
}

#[test]
fn winner_has_highest_score() {
    let reports = vec![report(2, 10), report(0, 42), report(1, -7)];
    assert_eq!(pick_winner(3, &reports), Ok(1));
}

#[test]
fn winner_beats_every_run_in_any_order() {
    let reports = vec![report(0, 5), report(1, 90), report(2, 90), report(3, -1000)];
    let w = pick_winner(4, &reports).unwrap();
    assert_eq!(w, 1);
    assert!(reports.iter().all(|r| r.score <= reports[w].score));
    let reversed: Vec<RunReport> = reports.iter().rev().cloned().collect();
    let w2 = pick_winner(4, &reversed).unwrap();
    assert_eq!(reversed[w2].score, reports[w].score);
}

#[test]
fn unknown_run_is_refused() {
    let reports = vec![report(0, 1), report(3, 2), report(0, 5)];
    assert_eq!(pick_winner(3, &reports), Err(FanInError::UnknownRun));
}

#[test]
fn duplicate_report_is_refused() {
    let reports = vec![report(0, 1), report(1, 2), report(0, 5)];
    assert_eq!(pick_winner(3, &reports), Err(FanInError::DuplicateReport));
}

#[test]
fn missing_report_is_refused() {
    let reports = vec![report(0, 1), report(2, 2)];
    assert_eq!(pick_winner(3, &reports), Err(FanInError::MissingReport));
    assert_eq!(pick_winner(1, &vec![]), Err(FanInError::MissingReport));
}

#[test]
fn plan_follows_the_given_materials() {
    let plan = run_plan(&vec![Material::Aluminum2024T4, Material::Steel1018]);
    assert_eq!(
        plan,
        vec![
            RunSpec { topology: Topology::Rectangular, material: Material::Aluminum2024T4 },
            RunSpec { topology: Topology::Tee, material: Material::Aluminum2024T4 },
            RunSpec { topology: Topology::I, material: Material::Aluminum2024T4 },
            RunSpec { topology: Topology::Rectangular, material: Material::Steel1018 },
            RunSpec { topology: Topology::Tee, material: Material::Steel1018 },
            RunSpec { topology: Topology::I, material: Material::Steel1018 },
        ]
    );
    assert!(run_plan(&vec![]).is_empty());
}
