use vstd::prelude::*;

use crate::error::{FinStep, InstallError};

verus! {

/// The combined pool result: success if every worker succeeded, else the
/// first failure in thread-join order.
pub open spec fn combine_spec(rs: Seq<Result<(), InstallError>>) -> Result<(), InstallError>
    decreases rs.len(),
{
    if rs.len() == 0 {
        Ok(())
    } else if rs[0] is Err {
        rs[0]
    } else {
        combine_spec(rs.drop_first())
    }
}

/// Index of the first failure, or -1 if every result is a success.
pub open spec fn first_err_idx(rs: Seq<Result<(), InstallError>>) -> int
    decreases rs.len(),
{
    if rs.len() == 0 {
        -1
    } else if rs[0] is Err {
        0
    } else {
        let i = first_err_idx(rs.drop_first());
        if i == -1 {
            -1
        } else {
            i + 1
        }
    }
}

/// What the combined result is: success exactly when every worker
/// succeeded; otherwise the first error in join order, verbatim.
pub proof fn lemma_combine_spec(rs: Seq<Result<(), InstallError>>)
    ensures
        combine_spec(rs) is Ok <==> (forall|k: int| 0 <= k < rs.len() ==> (#[trigger] rs[k]) is Ok),
        combine_spec(rs) is Err ==> {
            &&& 0 <= first_err_idx(rs) < rs.len()
            &&& combine_spec(rs) == rs[first_err_idx(rs)]
            &&& forall|j: int| 0 <= j < first_err_idx(rs) ==> (#[trigger] rs[j]) is Ok
        },
    decreases rs.len(),
{
    if rs.len() > 0 && !(rs[0] is Err) {
        lemma_combine_spec(rs.drop_first());
        assert(forall|k: int| 0 <= k < rs.drop_first().len() ==> rs.drop_first()[k] == rs[k + 1]);
        if combine_spec(rs) is Ok {
            assert forall|k: int| 0 <= k < rs.len() implies (#[trigger] rs[k]) is Ok by {
                if k > 0 {
                    assert(rs.drop_first()[k - 1] == rs[k]);
                }
            }
        } else {
            let i0 = first_err_idx(rs.drop_first());
            assert(combine_spec(rs.drop_first()) is Err);
            assert(rs.drop_first()[i0] == rs[i0 + 1]);
            assert(first_err_idx(rs) == i0 + 1);
            assert forall|j: int| 0 <= j < first_err_idx(rs) implies (#[trigger] rs[j]) is Ok by {
                if j > 0 {
                    assert(rs.drop_first()[j - 1] == rs[j]);
                }
            }
        }
    }
}

/// Reduce the per-worker results, in thread-join order, to the install
/// call's parallel-phase result: success only if every worker succeeded,
/// else the first error encountered in join order. No other worker's
/// error and no partial-success detail is surfaced.
pub fn combine_results(results: Vec<Result<(), InstallError>>) -> (r: Result<(), InstallError>)
    ensures
        r == combine_spec(results@),
{
    let ghost rv = results@;
    let mut rest = results;
    let mut r: Result<(), InstallError> = Ok(());
    while rest.len() > 0
        invariant
            rest@.len() <= rv.len(),
            rest@ == rv.subrange(0, rest@.len() as int),
            r == combine_spec(rv.subrange(rest@.len() as int, rv.len() as int)),
        decreases rest@.len(),
    {
        let ghost n = rest@.len() as int;
        let x = rest.pop().unwrap();
        assert(rest@ =~= rv.subrange(0, n - 1));
        let ghost suffix = rv.subrange(n, rv.len() as int);
        let ghost suffix1 = rv.subrange(n - 1, rv.len() as int);
        assert(suffix1.drop_first() =~= suffix);
        assert(suffix1[0] == rv[n - 1]);
        match x {
            Err(e) => {
                r = Err(e);
            },
            Ok(()) => {},
        }
    }
    assert(rv.subrange(0, rv.len() as int) =~= rv);
    r
}

/// The finalization gate. Finalization — and its first step, the toolset
/// re-resolution — is reached exactly when the pool reports full success;
/// on any pool failure no finalization step is ever invoked.
pub fn after_pool(pool_result: &Result<(), InstallError>) -> (next: Option<FinStep>)
    ensures
        pool_result is Ok <==> next == Some(FinStep::ResolveToolset),
        pool_result is Err <==> next is None,
{
    match pool_result {
        Ok(()) => Some(FinStep::ResolveToolset),
        Err(_) => None,
    }
}

/// Step the finalization sequence on one step's outcome. The steps run in
/// the fixed order toolset resolve, then reshim, then symlink rebuild; a
/// failure becomes a Finalization error for that step and aborts the
/// remaining steps (a failure at the second step thus prevents the third
/// but not the first, which already ran).
pub fn next_finalization(step: FinStep, outcome: Result<(), String>) -> (r: Result<
    Option<FinStep>,
    InstallError,
>)
    ensures
        outcome matches Err(m) ==> (r matches Err(e) && (e
            matches InstallError::Finalization { step: s, message } && s == step && message@
            == m@)),
        outcome is Ok ==> r == Ok::<Option<FinStep>, InstallError>(
            match step {
                FinStep::ResolveToolset => Some(FinStep::Reshim),
                FinStep::Reshim => Some(FinStep::Symlinks),
                FinStep::Symlinks => None::<FinStep>,
            },
        ),
{
    match outcome {
        Err(message) => Err(InstallError::Finalization { step, message }),
        Ok(()) => Ok(
            match step {
                FinStep::ResolveToolset => Some(FinStep::Reshim),
                FinStep::Reshim => Some(FinStep::Symlinks),
                FinStep::Symlinks => None,
            },
        ),
    }
}

} // verus!
