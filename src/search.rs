use vstd::prelude::*;
use crate::material::Material;
use crate::selection::{best_index, is_first_best};

verus! {

/// The cross-section shapes a search explores.
#[derive(Clone, Copy, Debug, PartialEq, Eq, Structural)]
pub enum Topology {
    /// A hollow box of uniform wall thickness.
    Rectangular,
    /// A flange over a stem.
    Tee,
    /// Two flanges joined by a web.
    I,
}

/// One genetic run of a search: a shape and a material.
#[derive(Clone, Copy, Debug, PartialEq, Eq, Structural)]
pub struct RunSpec {
    pub topology: Topology,
    pub material: Material,
}

/// What a finished run hands back: which run it was and the score of its
/// best design.
#[derive(Clone, Copy, Debug, PartialEq, Eq, Structural)]
pub struct RunReport {
    pub run: usize,
    pub score: i64,
}

/// Why the reports of a search cannot be reduced to a winner.
#[derive(Clone, Copy, Debug, PartialEq, Eq, Structural)]
pub enum FanInError {
    /// A report names a run that was never spawned.
    UnknownRun,
    /// Two reports name the same run.
    DuplicateReport,
    /// A spawned run sent no report.
    MissingReport,
}

/// Some report names a run outside `0..expected`.
pub open spec fn names_unknown_run(reports: Seq<RunReport>, expected: usize) -> bool {
    exists|i: int| 0 <= i < reports.len() && #[trigger] reports[i].run >= expected
}

/// Two reports name the same run.
pub open spec fn has_duplicate(reports: Seq<RunReport>) -> bool {
    exists|i: int, j: int|
        0 <= i < j < reports.len() && #[trigger] reports[i].run == #[trigger] reports[j].run
}

/// Some report among the first `k` is from run `r`.
pub open spec fn reported_before(reports: Seq<RunReport>, r: usize, k: int) -> bool {
    exists|i: int| 0 <= i < k && #[trigger] reports[i].run == r
}

/// Some run of `0..expected` is named by no report.
pub open spec fn has_missing(reports: Seq<RunReport>, expected: usize) -> bool {
    exists|r: usize| r < expected && !reported_before(reports, r, reports.len() as int)
}

/// The scores of the reports, by position.
pub open spec fn report_scores(reports: Seq<RunReport>) -> Seq<i64> {
    reports.map_values(|r: RunReport| r.score)
}

/// The runs of a search: each topology with each material of `materials`,
/// three runs per material, in the order the materials are given.
pub fn run_plan(materials: &Vec<Material>) -> (plan: Vec<RunSpec>)
    ensures
        plan.len() == 3 * materials.len(),
        forall|q: int|
            0 <= q < materials.len() ==> plan[3 * q] == (RunSpec {
                topology: Topology::Rectangular,
                material: materials[q],
            }) && plan[3 * q + 1] == (RunSpec { topology: Topology::Tee, material: materials[q] })
                && plan[3 * q + 2] == (RunSpec { topology: Topology::I, material: materials[q] }),
        forall|t: Topology, m: Material|
            materials@.contains(m) ==> plan@.contains((RunSpec { topology: t, material: m })),
        forall|i: int| 0 <= i < plan.len() ==> materials@.contains(#[trigger] plan[i].material),
        (forall|a: int, b: int| 0 <= a < b < materials.len() ==> materials[a] != materials[b])
            ==> forall|i: int, j: int| 0 <= i < j < plan.len() ==> plan[i] != plan[j],
{
    let mut plan: Vec<RunSpec> = Vec::new();
    let mut p: usize = 0;
    while p < materials.len()
        invariant
            p <= materials.len(),
            plan.len() == 3 * p,
            forall|q: int|
                0 <= q < p ==> plan[3 * q] == (RunSpec {
                    topology: Topology::Rectangular,
                    material: materials[q],
                }) && plan[3 * q + 1] == (RunSpec { topology: Topology::Tee, material: materials[q] })
                    && plan[3 * q + 2] == (RunSpec { topology: Topology::I, material: materials[q] }),
        decreases materials.len() - p,
    {
        let m = materials[p];
        plan.push(RunSpec { topology: Topology::Rectangular, material: m });
        plan.push(RunSpec { topology: Topology::Tee, material: m });
        plan.push(RunSpec { topology: Topology::I, material: m });
        p = p + 1;
    }
    assert forall|t: Topology, m: Material| materials@.contains(m) implies plan@.contains(
        (RunSpec { topology: t, material: m }),
    ) by {
        let q = choose|q: int| 0 <= q < materials.len() && materials[q] == m;
        match t {
            Topology::Rectangular => assert(plan[3 * q] == (RunSpec { topology: t, material: m })),
            Topology::Tee => assert(plan[3 * q + 1] == (RunSpec { topology: t, material: m })),
            Topology::I => assert(plan[3 * q + 2] == (RunSpec { topology: t, material: m })),
        }
    }
    assert forall|i: int| 0 <= i < plan.len() implies materials@.contains(
        #[trigger] plan[i].material,
    ) by {
        let q = i / 3;
        assert(0 <= q < materials.len());
        assert(plan[i].material == materials[q]);
    }
    proof {
        if forall|a: int, b: int| 0 <= a < b < materials.len() ==> materials[a] != materials[b] {
            assert forall|i: int, j: int| 0 <= i < j < plan.len() implies plan[i] != plan[j] by {
                let qi = i / 3;
                let qj = j / 3;
                assert(0 <= qi < materials.len() && 0 <= qj < materials.len());
                assert(plan[i].material == materials[qi]);
                assert(plan[j].material == materials[qj]);
            }
        }
    }
    plan
}

/// The winner of a search: the position, among `reports`, of the report
/// with the highest score, once exactly one report has come from each of the
/// `expected` runs.
pub fn pick_winner(expected: usize, reports: &Vec<RunReport>) -> (r: Result<usize, FanInError>)
    requires
        expected > 0,
    ensures
        r == Err::<usize, FanInError>(FanInError::UnknownRun) <==> names_unknown_run(
            reports@,
            expected,
        ),
        r == Err::<usize, FanInError>(FanInError::DuplicateReport) <==> !names_unknown_run(
            reports@,
            expected,
        ) && has_duplicate(reports@),
        r == Err::<usize, FanInError>(FanInError::MissingReport) <==> !names_unknown_run(
            reports@,
            expected,
        ) && !has_duplicate(reports@) && has_missing(reports@, expected),
        r is Ok ==> reports.len() == expected && is_first_best(
            report_scores(reports@),
            r->Ok_0 as int,
        ),
        r matches Ok(w) ==> forall|i: int|
            0 <= i < reports.len() ==> reports[i].score <= reports[w as int].score,
{
    let mut i: usize = 0;
    while i < reports.len()
        invariant
            i <= reports.len(),
            forall|k: int| 0 <= k < i ==> #[trigger] reports[k].run < expected,
        decreases reports.len() - i,
    {
        if reports[i].run >= expected {
            return Err(FanInError::UnknownRun);
        }
        i = i + 1;
    }
    let mut seen: Vec<bool> = Vec::new();
    let mut r: usize = 0;
    while r < expected
        invariant
            r <= expected,
            seen.len() == r,
            forall|v: int| 0 <= v < r ==> !seen[v],
        decreases expected - r,
    {
        seen.push(false);
        r = r + 1;
    }
    let mut k: usize = 0;
    while k < reports.len()
        invariant
            k <= reports.len(),
            seen.len() == expected,
            forall|q: int| 0 <= q < reports.len() ==> #[trigger] reports[q].run < expected,
            forall|v: usize| v < expected ==> seen[v as int] == reported_before(reports@, v, k as int),
            forall|a: int, b: int|
                0 <= a < b < k ==> #[trigger] reports[a].run != #[trigger] reports[b].run,
        decreases reports.len() - k,
    {
        let run = reports[k].run;
        if seen[run] {
            assert(reports[k as int].run == run);
            let ghost a = choose|a: int| 0 <= a < k && #[trigger] reports[a].run == run;
            assert(reports[a].run == reports[k as int].run);
            return Err(FanInError::DuplicateReport);
        }
        seen[run] = true;
        assert forall|v: usize| v < expected implies seen[v as int] == reported_before(
            reports@,
            v,
            (k + 1) as int,
        ) by {
            if v == run {
                assert(reports[k as int].run == v);
            } else if reported_before(reports@, v, (k + 1) as int) {
                let a = choose|a: int| 0 <= a < k + 1 && #[trigger] reports[a].run == v;
                assert(reported_before(reports@, v, k as int));
            }
        }
        k = k + 1;
    }
    let mut v: usize = 0;
    while v < expected
        invariant
            v <= expected,
            seen.len() == expected,
            forall|u: usize| u < expected ==> seen[u as int] == reported_before(
                reports@,
                u,
                reports.len() as int,
            ),
            forall|u: usize| u < v ==> seen[u as int],
            forall|q: int| 0 <= q < reports.len() ==> #[trigger] reports[q].run < expected,
            forall|a: int, b: int|
                0 <= a < b < reports.len() ==> #[trigger] reports[a].run != #[trigger] reports[b].run,
        decreases expected - v,
    {
        if !seen[v] {
            assert(!reported_before(reports@, v, reports.len() as int));
            return Err(FanInError::MissingReport);
        }
        v = v + 1;
    }
    proof {
        assert forall|u: usize| u < expected implies reported_before(
            reports@,
            u,
            reports.len() as int,
        ) by {
            assert(seen[u as int]);
        }
        lemma_full_cover_has_length(reports@, expected);
    }
    let mut scores: Vec<i64> = Vec::new();
    let mut s: usize = 0;
    while s < reports.len()
        invariant
            s <= reports.len(),
            scores@ == report_scores(reports@).subrange(0, s as int),
        decreases reports.len() - s,
    {
        scores.push(reports[s].score);
        s = s + 1;
        assert(scores@ =~= report_scores(reports@).subrange(0, s as int));
    }
    assert(scores@ =~= report_scores(reports@));
    let w = best_index(&scores);
    assert forall|i: int| 0 <= i < reports.len() implies reports[i].score
        <= reports[w as int].score by {
        assert(scores[i] == reports[i].score);
        assert(scores[w as int] == reports[w as int].score);
    }
    Ok(w)
}

/// The winning score does not depend on the order in which the reports
/// arrived: in two orderings of the same reports, the best report of each
/// has the same score.
pub proof fn winner_score_ignores_arrival_order(
    a: Seq<RunReport>,
    b: Seq<RunReport>,
    wa: int,
    wb: int,
)
    requires
        a.to_multiset() == b.to_multiset(),
        is_first_best(report_scores(a), wa),
        is_first_best(report_scores(b), wb),
    ensures
        a[wa].score == b[wb].score,
{
    vstd::seq_lib::to_multiset_contains(a, a[wa]);
    vstd::seq_lib::to_multiset_contains(b, a[wa]);
    vstd::seq_lib::to_multiset_contains(b, b[wb]);
    vstd::seq_lib::to_multiset_contains(a, b[wb]);
    assert(a.contains(a[wa]));
    assert(b.contains(b[wb]));
    let j = choose|j: int| 0 <= j < b.len() && b[j] == a[wa];
    let i = choose|i: int| 0 <= i < a.len() && a[i] == b[wb];
    assert(report_scores(b)[j] == b[j].score);
    assert(report_scores(a)[i] == a[i].score);
}

/// Reports that name each of the runs `0..expected` once, and nothing else,
/// number exactly `expected`.
proof fn lemma_full_cover_has_length(reports: Seq<RunReport>, expected: usize)
    requires
        forall|q: int| 0 <= q < reports.len() ==> #[trigger] reports[q].run < expected,
        forall|a: int, b: int|
            0 <= a < b < reports.len() ==> #[trigger] reports[a].run != #[trigger] reports[b].run,
        forall|u: usize| u < expected ==> reported_before(reports, u, reports.len() as int),
    ensures
        reports.len() == expected,
{
    let runs = reports.map_values(|r: RunReport| r.run as int);
    assert(runs.no_duplicates()) by {
        assert forall|a: int, b: int| 0 <= a < runs.len() && 0 <= b < runs.len() && a != b implies runs[a]
            != runs[b] by {
            if a < b {
                assert(reports[a].run != reports[b].run);
            } else {
                assert(reports[b].run != reports[a].run);
            }
        }
    }
    runs.unique_seq_to_set();
    vstd::set_lib::lemma_int_range(0, expected as int);
    let range = vstd::set_lib::set_int_range(0, expected as int);
    assert(runs.to_set() =~= range) by {
        assert forall|x: int| runs.to_set().contains(x) implies range.contains(x) by {
            let q = choose|q: int| 0 <= q < runs.len() && runs[q] == x;
            assert(reports[q].run < expected);
        }
        assert forall|x: int| range.contains(x) implies runs.to_set().contains(x) by {
            let u = x as usize;
            assert(reported_before(reports, u, reports.len() as int));
            let q = choose|q: int| 0 <= q < reports.len() && #[trigger] reports[q].run == u;
            assert(runs[q] == x);
        }
    }
}

} // verus!
