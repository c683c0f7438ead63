//! Per-unit compile outcomes: the tagged success/failure variant, the
//! annotation of diagnostics with the originating file path, and the
//! element-wise processing of a whole batch of compile results.
//!
//! The external compile step itself lives outside the library; it hands in
//! either translated text or an ordered list of diagnostic strings, and the
//! functions here turn that, per unit, into a `CompileOutcome`.

use vstd::prelude::*;

verus! {

/// The result of compiling one source unit: translated text on success, an
/// ordered list of diagnostics on failure.
pub enum CompileOutcome {
    Success(String),
    Failure(Vec<String>),
}

impl View for CompileOutcome {
    type V = Result<Seq<char>, Seq<Seq<char>>>;

    open spec fn view(&self) -> Self::V {
        match self {
            CompileOutcome::Success(t) => Ok(t@),
            CompileOutcome::Failure(ds) => Err(ds.deep_view()),
        }
    }
}

/// One diagnostic line annotated with the path of the offending file.
pub open spec fn annotate_line(d: Seq<char>, path: Seq<char>) -> Seq<char> {
    d + " in <"@ + path + ">"@
}

/// Every diagnostic line annotated with the path of the offending file.
pub open spec fn annotate_all(ds: Seq<Seq<char>>, path: Seq<char>) -> Seq<Seq<char>> {
    ds.map_values(|d: Seq<char>| annotate_line(d, path))
}

/// Annotates each diagnostic with the offending file's path, in the form
/// `<message> in <path>`, so the lines stay self-describing once merged with
/// other units' diagnostics.
pub fn annotate_diagnostics(ds: &Vec<String>, path: &str) -> (r: Vec<String>)
    ensures
        r.deep_view() == annotate_all(ds.deep_view(), path@),
{
    let mut out: Vec<String> = Vec::new();
    let mut i: usize = 0;
    while i < ds.len()
        invariant
            i <= ds.len(),
            out@.len() == i,
            forall|j: int| 0 <= j < i ==> (#[trigger] out@[j])@ == annotate_line(
                ds@[j]@,
                path@,
            ),
        decreases ds.len() - i,
    {
        let line = ds[i].clone();
        let line = line.concat(" in <");
        let line = line.concat(path);
        let line = line.concat(">");
        out.push(line);
        i = i + 1;
    }
    proof {
        assert forall|j: int| 0 <= j < out.deep_view().len() implies out.deep_view()[j]
            == annotate_all(ds.deep_view(), path@)[j] by {
            assert(out.deep_view()[j] == out@[j]@);
            assert(ds.deep_view()[j] == ds@[j]@);
        }
        assert(out.deep_view() =~= annotate_all(ds.deep_view(), path@));
    }
    out
}

/// The view of one external compile result.
pub open spec fn compile_result_view(r: Result<String, Vec<String>>) -> Result<
    Seq<char>,
    Seq<Seq<char>>,
> {
    match r {
        Ok(t) => Ok(t@),
        Err(ds) => Err(ds.deep_view()),
    }
}

/// The view of one unit's raw input to outcome processing: `None` stands for
/// a source file that could not be read.
pub open spec fn read_view(r: Option<Result<String, Vec<String>>>) -> Option<
    Result<Seq<char>, Seq<Seq<char>>>,
> {
    match r {
        None => None,
        Some(x) => Some(compile_result_view(x)),
    }
}

/// The diagnostics reported for a unit whose source could not be read.
pub open spec fn read_failure_diags(path: Seq<char>) -> Seq<Seq<char>> {
    seq![annotate_line("could not read source file"@, path)]
}

/// The outcome owed to one unit, as a function of that unit's path and raw
/// result alone: an unreadable source becomes a failure naming the file, a
/// failed compile has each diagnostic annotated with the file's path, and a
/// successful compile passes its translated text through unchanged.
pub open spec fn unit_outcome_spec(
    path: Seq<char>,
    read: Option<Result<Seq<char>, Seq<Seq<char>>>>,
) -> Result<Seq<char>, Seq<Seq<char>>> {
    match read {
        None => Err(read_failure_diags(path)),
        Some(Ok(t)) => Ok(t),
        Some(Err(ds)) => Err(annotate_all(ds, path)),
    }
}

/// The outcome of a unit whose source could not be read: a failure carrying
/// one diagnostic that names the file.
pub fn read_failure_outcome(path: &str) -> (r: CompileOutcome)
    ensures
        r@ == Err::<Seq<char>, Seq<Seq<char>>>(read_failure_diags(path@)),
{
    let mut ds: Vec<String> = Vec::new();
    ds.push(String::from_str("could not read source file"));
    let annotated = annotate_diagnostics(&ds, path);
    proof {
        assert(ds.deep_view() =~= seq!["could not read source file"@]);
        assert(annotated.deep_view() =~= read_failure_diags(path@));
    }
    CompileOutcome::Failure(annotated)
}

/// Turns one unit's raw result into its outcome.
pub fn unit_outcome(path: &str, read: Option<Result<String, Vec<String>>>) -> (r:
    CompileOutcome)
    ensures
        r@ == unit_outcome_spec(path@, read_view(read)),
{
    match read {
        None => read_failure_outcome(path),
        Some(Ok(t)) => CompileOutcome::Success(t),
        Some(Err(ds)) => CompileOutcome::Failure(annotate_diagnostics(&ds, path)),
    }
}

/// One processed entry corresponds to one input entry: same path, and the
/// outcome owed to that entry alone.
pub open spec fn entry_matches(
    r: (String, CompileOutcome),
    inp: (String, Option<Result<String, Vec<String>>>),
) -> bool {
    r.0@ == inp.0@ && r.1@ == unit_outcome_spec(inp.0@, read_view(inp.1))
}

/// Processes a whole batch: each unit's outcome is a function of that unit's
/// own entry alone, so one unit's failure never affects another's outcome,
/// and every unit yields exactly one outcome, in input order.
pub fn batch_outcomes(inputs: Vec<(String, Option<Result<String, Vec<String>>>)>) -> (r: Vec<
    (String, CompileOutcome),
>)
    ensures
        r@.len() == inputs@.len(),
        forall|i: int| 0 <= i < r@.len() ==> entry_matches(#[trigger] r@[i], inputs@[i]),
{
    let ghost n = inputs@.len() as int;
    let mut stack = inputs;
    let mut rev: Vec<(String, CompileOutcome)> = Vec::new();
    while stack.len() > 0
        invariant
            stack@ == inputs@.subrange(0, stack@.len() as int),
            rev@.len() + stack@.len() == n,
            n == inputs@.len(),
            forall|i: int| 0 <= i < rev@.len() ==> entry_matches(
                #[trigger] rev@[i],
                inputs@[n - 1 - i],
            ),
        decreases stack@.len(),
    {
        let ghost k = stack@.len() as int;
        let pair = stack.pop().unwrap();
        proof {
            assert(stack@ =~= inputs@.subrange(0, k - 1));
            assert(pair == inputs@[k - 1]);
        }
        let (p, res) = pair;
        let o = unit_outcome(p.as_str(), res);
        rev.push((p, o));
    }
    let mut out: Vec<(String, CompileOutcome)> = Vec::new();
    while rev.len() > 0
        invariant
            out@.len() + rev@.len() == n,
            n == inputs@.len(),
            forall|i: int| 0 <= i < rev@.len() ==> entry_matches(
                #[trigger] rev@[i],
                inputs@[n - 1 - i],
            ),
            forall|j: int| 0 <= j < out@.len() ==> entry_matches(#[trigger] out@[j], inputs@[j]),
        decreases rev@.len(),
    {
        let ghost m = rev@.len() as int;
        let ghost rev0 = rev@;
        let pair = rev.pop().unwrap();
        proof {
            assert(pair == rev0[m - 1]);
            assert(entry_matches(rev0[m - 1], inputs@[n - m]));
        }
        out.push(pair);
    }
    out
}

} // verus!
