//! Finalizing a run: partitioning outcomes into written artifacts and
//! aggregated diagnostics, and the final build report.
//!
//! Successes become one artifact each at the unit's mapped output location;
//! failures have their diagnostics concatenated, in unit order, into the
//! report. A successful artifact is produced even when sibling units fail:
//! partial output is intentional, but any failure flips the overall status.

use vstd::prelude::*;

use crate::outcome::CompileOutcome;
use crate::paths::mapped_output_path;
use crate::paths::map_output_path;
use crate::paths::seq_starts_with;
use crate::paths::target_extension;
use crate::paths::target_extension_spec;

verus! {

/// One output file owed to a successful unit.
pub struct CompiledArtifact {
    /// Where the artifact is to be written.
    pub output_path: String,
    /// The translated text to write.
    pub content: String,
}

/// The sole return value of a run.
pub struct BuildReport {
    /// How many units the run processed.
    pub total: usize,
    /// How many units produced a failure outcome.
    pub failed: usize,
    /// Wall-clock duration of the run, in milliseconds.
    pub elapsed_ms: u64,
    /// Every failing unit's diagnostics, in unit order, each line already
    /// annotated with its originating file path.
    pub diagnostics: Vec<String>,
}

impl BuildReport {
    /// The run counts as a success exactly when no unit failed.
    pub open spec fn is_success_spec(&self) -> bool {
        self.failed == 0
    }

    /// Whether the run succeeded as a whole.
    pub fn is_success(&self) -> (r: bool)
        ensures
            r == self.is_success_spec(),
    {
        self.failed == 0
    }
}

/// The views of a sequence of per-unit results.
pub open spec fn pair_views(rs: Seq<(String, CompileOutcome)>) -> Seq<
    (Seq<char>, Result<Seq<char>, Seq<Seq<char>>>),
> {
    rs.map_values(|p: (String, CompileOutcome)| (p.0@, p.1@))
}

/// The views of a sequence of artifacts.
pub open spec fn artifact_views(arts: Seq<CompiledArtifact>) -> Seq<(Seq<char>, Seq<char>)> {
    arts.map_values(|a: CompiledArtifact| (a.output_path@, a.content@))
}

/// The views of a sequence of strings.
pub open spec fn strs_deep(v: Seq<String>) -> Seq<Seq<char>> {
    v.map_values(|s: String| s@)
}

/// The artifacts a run owes: one per successful unit, at its mapped output
/// location, in unit order.
pub open spec fn artifacts_spec(
    in_root: Seq<char>,
    out_root: Seq<char>,
    rs: Seq<(Seq<char>, Result<Seq<char>, Seq<Seq<char>>>)>,
) -> Seq<(Seq<char>, Seq<char>)>
    decreases rs.len(),
{
    if rs.len() == 0 {
        Seq::empty()
    } else {
        let rest = artifacts_spec(in_root, out_root, rs.drop_last());
        match rs.last().1 {
            Ok(t) => rest.push(
                (mapped_output_path(in_root, out_root, rs.last().0, target_extension_spec()), t),
            ),
            Err(_) => rest,
        }
    }
}

/// How many units produced a failure outcome.
pub open spec fn failure_count_spec(
    rs: Seq<(Seq<char>, Result<Seq<char>, Seq<Seq<char>>>)>,
) -> nat
    decreases rs.len(),
{
    if rs.len() == 0 {
        0
    } else {
        failure_count_spec(rs.drop_last()) + if rs.last().1 is Err {
            1nat
        } else {
            0nat
        }
    }
}

/// Every failing unit's diagnostics, concatenated in unit order.
pub open spec fn diagnostics_spec(
    rs: Seq<(Seq<char>, Result<Seq<char>, Seq<Seq<char>>>)>,
) -> Seq<Seq<char>>
    decreases rs.len(),
{
    if rs.len() == 0 {
        Seq::empty()
    } else {
        diagnostics_spec(rs.drop_last()) + match rs.last().1 {
            Ok(_) => Seq::<Seq<char>>::empty(),
            Err(ds) => ds,
        }
    }
}

/// The character for one decimal digit.
pub open spec fn digit_char(d: nat) -> char {
    if d == 0 {
        '0'
    } else if d == 1 {
        '1'
    } else if d == 2 {
        '2'
    } else if d == 3 {
        '3'
    } else if d == 4 {
        '4'
    } else if d == 5 {
        '5'
    } else if d == 6 {
        '6'
    } else if d == 7 {
        '7'
    } else if d == 8 {
        '8'
    } else {
        '9'
    }
}

/// The decimal notation of `n`, most significant digit first, without
/// leading zeroes (a single `0` for zero).
pub open spec fn decimal_digits(n: nat) -> Seq<char>
    decreases n,
{
    if n < 10 {
        seq![digit_char(n)]
    } else {
        decimal_digits(n / 10).push(digit_char(n % 10))
    }
}

/// The one-line summary reported when every unit compiled.
pub open spec fn success_message_spec(elapsed_ms: nat) -> Seq<char> {
    "Compiled successfully in "@ + decimal_digits(elapsed_ms) + "ms"@
}

/// One decimal digit as text.
fn digit_str(d: u64) -> (r: &'static str)
    requires
        d < 10,
    ensures
        r@ =~= seq![digit_char(d as nat)],
{
    proof {
        reveal_strlit("0");
        reveal_strlit("1");
        reveal_strlit("2");
        reveal_strlit("3");
        reveal_strlit("4");
        reveal_strlit("5");
        reveal_strlit("6");
        reveal_strlit("7");
        reveal_strlit("8");
        reveal_strlit("9");
    }
    match d {
        0 => "0",
        1 => "1",
        2 => "2",
        3 => "3",
        4 => "4",
        5 => "5",
        6 => "6",
        7 => "7",
        8 => "8",
        _ => "9",
    }
}

/// Writes `n` in decimal notation.
pub fn u64_to_decimal(n: u64) -> (r: String)
    ensures
        r@ == decimal_digits(n as nat),
    decreases n,
{
    if n < 10 {
        String::from_str(digit_str(n))
    } else {
        let mut s = u64_to_decimal(n / 10);
        s.append(digit_str(n % 10));
        proof {
            assert(decimal_digits((n / 10) as nat) + seq![digit_char((n % 10) as nat)]
                =~= decimal_digits((n / 10) as nat).push(digit_char((n % 10) as nat)));
        }
        s
    }
}

/// The one-line summary reported when every unit compiled.
pub fn success_message(elapsed_ms: u64) -> (r: String)
    ensures
        r@ == success_message_spec(elapsed_ms as nat),
{
    let msg = String::from_str("Compiled successfully in ");
    let msg = msg.concat(u64_to_decimal(elapsed_ms).as_str());
    let msg = msg.concat("ms");
    msg
}

/// Partitions a tree-mode run's outcomes: one artifact per success at its
/// mapped output location, every failure's diagnostics gathered in unit
/// order, and the final tally. Any failure flips the overall status, yet
/// the successful units' artifacts are still produced.
pub fn finalize_tree(
    input_root: &str,
    output_root: &str,
    results: &Vec<(String, CompileOutcome)>,
    elapsed_ms: u64,
) -> (r: (Vec<CompiledArtifact>, BuildReport))
    requires
        forall|i: int| 0 <= i < results@.len() ==> seq_starts_with(
            (#[trigger] results@[i]).0@,
            input_root@,
        ),
    ensures
        artifact_views(r.0@) == artifacts_spec(input_root@, output_root@, pair_views(results@)),
        r.1.total == results@.len(),
        r.1.failed == failure_count_spec(pair_views(results@)),
        r.1.diagnostics.deep_view() == diagnostics_spec(pair_views(results@)),
        r.1.elapsed_ms == elapsed_ms,
        r.1.is_success_spec() <==> failure_count_spec(pair_views(results@)) == 0,
{
    let ghost pv = pair_views(results@);
    let mut artifacts: Vec<CompiledArtifact> = Vec::new();
    let mut diags: Vec<String> = Vec::new();
    let mut failed: usize = 0;
    let mut i: usize = 0;
    while i < results.len()
        invariant
            i <= results@.len(),
            pv == pair_views(results@),
            forall|k: int| 0 <= k < results@.len() ==> seq_starts_with(
                (#[trigger] results@[k]).0@,
                input_root@,
            ),
            artifact_views(artifacts@) == artifacts_spec(
                input_root@,
                output_root@,
                pv.take(i as int),
            ),
            strs_deep(diags@) == diagnostics_spec(pv.take(i as int)),
            failed == failure_count_spec(pv.take(i as int)),
            failed <= i,
        decreases results@.len() - i,
    {
        proof {
            assert(pv.take(i + 1).drop_last() =~= pv.take(i as int));
            assert(pv.take(i + 1).last() == pv[i as int]);
            assert(pv[i as int] == (results@[i as int].0@, results@[i as int].1@));
        }
        let pair = &results[i];
        match &pair.1 {
            CompileOutcome::Success(t) => {
                let out_path = map_output_path(
                    input_root,
                    output_root,
                    pair.0.as_str(),
                    target_extension(),
                );
                let ghost arts0 = artifacts@;
                artifacts.push(CompiledArtifact { output_path: out_path, content: t.clone() });
                proof {
                    assert(artifact_views(artifacts@) =~= artifact_views(arts0).push(
                        (artifacts@.last().output_path@, artifacts@.last().content@),
                    ));
                    assert(artifact_views(artifacts@) =~= artifacts_spec(
                        input_root@,
                        output_root@,
                        pv.take(i + 1),
                    ));
                    assert(strs_deep(diags@) =~= diagnostics_spec(pv.take(i + 1)));
                }
            },
            CompileOutcome::Failure(ds) => {
                failed = failed + 1;
                let ghost diags0 = diags@;
                let mut j: usize = 0;
                while j < ds.len()
                    invariant
                        j <= ds@.len(),
                        strs_deep(diags@) == strs_deep(diags0) + ds.deep_view().take(j as int),
                    decreases ds@.len() - j,
                {
                    let ghost d0 = diags@;
                    diags.push(ds[j].clone());
                    proof {
                        assert(ds.deep_view().take(j + 1) =~= ds.deep_view().take(j as int).push(
                            ds@[j as int]@,
                        ));
                        assert(strs_deep(diags@) =~= strs_deep(d0).push(diags@.last()@));
                        assert(strs_deep(diags@) =~= strs_deep(diags0) + ds.deep_view().take(
                            j + 1,
                        ));
                    }
                    j = j + 1;
                }
                proof {
                    assert(ds.deep_view().take(ds@.len() as int) =~= ds.deep_view());
                    assert(strs_deep(diags@) =~= diagnostics_spec(pv.take(i + 1)));
                    assert(artifact_views(artifacts@) =~= artifacts_spec(
                        input_root@,
                        output_root@,
                        pv.take(i + 1),
                    ));
                }
            },
        }
        i = i + 1;
    }
    proof {
        assert(pv.take(results@.len() as int) =~= pv);
        assert(diags.deep_view() =~= strs_deep(diags@));
    }
    let report = BuildReport { total: results.len(), failed, elapsed_ms, diagnostics: diags };
    (artifacts, report)
}

/// Finalizes a single-file run: the one outcome maps one-to-one onto the
/// final output. A success becomes exactly one artifact at the
/// caller-specified output path; a failure becomes the report's
/// diagnostics, and no artifact.
pub fn finalize_single(output_path: &str, outcome: CompileOutcome, elapsed_ms: u64) -> (r: (
    Option<CompiledArtifact>,
    BuildReport,
))
    ensures
        r.1.total == 1,
        r.1.elapsed_ms == elapsed_ms,
        outcome@ matches Ok(t) ==> (r.0 matches Some(a) && a.output_path@ == output_path@
            && a.content@ == t && r.1.failed == 0 && r.1.diagnostics.deep_view()
            == Seq::<Seq<char>>::empty() && r.1.is_success_spec()),
        outcome@ matches Err(ds) ==> (r.0 is None && r.1.failed == 1
            && r.1.diagnostics.deep_view() == ds && !r.1.is_success_spec()),
{
    match outcome {
        CompileOutcome::Success(t) => {
            let artifact = CompiledArtifact {
                output_path: String::from_str(output_path),
                content: t,
            };
            let report = BuildReport {
                total: 1,
                failed: 0,
                elapsed_ms,
                diagnostics: Vec::new(),
            };
            proof {
                assert(report.diagnostics.deep_view() =~= Seq::<Seq<char>>::empty());
            }
            (Some(artifact), report)
        },
        CompileOutcome::Failure(ds) => {
            let report = BuildReport { total: 1, failed: 1, elapsed_ms, diagnostics: ds };
            (None, report)
        },
    }
}

/// An empty unit set finalizes to zero artifacts, zero failures and no
/// diagnostics: the report shows zero total units and overall success.
pub proof fn lemma_empty_run(in_root: Seq<char>, out_root: Seq<char>)
    ensures
        artifacts_spec(
            in_root,
            out_root,
            Seq::<(Seq<char>, Result<Seq<char>, Seq<Seq<char>>>)>::empty(),
        ) == Seq::<(Seq<char>, Seq<char>)>::empty(),
        failure_count_spec(Seq::<(Seq<char>, Result<Seq<char>, Seq<Seq<char>>>)>::empty()) == 0,
        diagnostics_spec(Seq::<(Seq<char>, Result<Seq<char>, Seq<Seq<char>>>)>::empty())
            == Seq::<Seq<char>>::empty(),
{
}

/// Idempotence: the whole finalizing step is a function of the per-unit
/// results alone, so — the external compile step being free of side effects
/// — two runs over the same unchanged inputs owe byte-identical artifacts,
/// identical diagnostics and an identical tally.
pub proof fn lemma_rerun_identical(
    in_root: Seq<char>,
    out_root: Seq<char>,
    rs1: Seq<(Seq<char>, Result<Seq<char>, Seq<Seq<char>>>)>,
    rs2: Seq<(Seq<char>, Result<Seq<char>, Seq<Seq<char>>>)>,
)
    requires
        rs1 == rs2,
    ensures
        artifacts_spec(in_root, out_root, rs1) == artifacts_spec(in_root, out_root, rs2),
        diagnostics_spec(rs1) == diagnostics_spec(rs2),
        failure_count_spec(rs1) == failure_count_spec(rs2),
{
}

/// Isolation: a unit whose compile succeeded has its artifact among the
/// run's outputs, whatever the outcomes of the other units in the batch.
pub proof fn lemma_success_is_written(
    in_root: Seq<char>,
    out_root: Seq<char>,
    rs: Seq<(Seq<char>, Result<Seq<char>, Seq<Seq<char>>>)>,
    i: int,
)
    requires
        0 <= i < rs.len(),
        rs[i].1 is Ok,
    ensures
        artifacts_spec(in_root, out_root, rs).contains(
            (mapped_output_path(in_root, out_root, rs[i].0, target_extension_spec()), rs[
                i].1->Ok_0),
        ),
    decreases rs.len(),
{
    let a = (mapped_output_path(in_root, out_root, rs[i].0, target_extension_spec()), rs[
        i].1->Ok_0);
    let rest = artifacts_spec(in_root, out_root, rs.drop_last());
    if i == rs.len() - 1 {
        assert(artifacts_spec(in_root, out_root, rs)[rest.len() as int] == a);
    } else {
        lemma_success_is_written(in_root, out_root, rs.drop_last(), i);
        let j = choose|j: int| 0 <= j < rest.len() && rest[j] == a;
        assert(artifacts_spec(in_root, out_root, rs)[j] == a);
    }
}

} // verus!
