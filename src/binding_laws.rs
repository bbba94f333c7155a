use vstd::prelude::*;

use crate::arg_error::ArgErrorView;
use crate::binder::{
    bind_result, bindings, first_failing_slot, first_unknown_key, is_param_name, keywords_used,
    slot_outcome, slots_ok, too_many,
};
use crate::params::{has_key, lemma_has_key, lookup, ParamDescription};

verus! {

/// True when no two parameters share a name.
pub open spec fn names_distinct(params: Seq<ParamDescription>) -> bool {
    forall|a: int, b: int|
        0 <= a < params.len() && 0 <= b < params.len() && #[trigger] params[a].name@
            == #[trigger] params[b].name@ ==> a == b
}

/// When parameter `i` is the first to fail and the argument count is
/// acceptable, the binding fails with that parameter's error.
proof fn lemma_first_failure_reported<V>(
    fname: Option<Seq<char>>,
    params: Seq<ParamDescription>,
    args: Seq<V>,
    kws: Seq<(Seq<char>, V)>,
    accept_args: bool,
    accept_kwargs: bool,
    i: int,
)
    requires
        !too_many(params.len(), args.len(), kws.len(), accept_args, accept_kwargs),
        first_failing_slot(params, i, args, kws),
    ensures
        bind_result::<V>(fname, params, args, kws, accept_args, accept_kwargs) == Err::<
            Seq<Option<&V>>,
            ArgErrorView,
        >(slot_outcome::<V>(params[i], i, args, kws)->Err_0),
{
    let c = choose|c: int| first_failing_slot(params, c, args, kws);
    assert(first_failing_slot(params, c, args, kws));
    if c < i {
        assert(slot_outcome::<V>(params[c], c, args, kws) is Ok);
    } else if i < c {
        assert(slot_outcome::<V>(params[i], i, args, kws) is Ok);
    }
}

/// With extra arguments refused, a call that gives at most as many
/// arguments as there are parameters never fails for their number.
pub proof fn law_no_excess_within_arity<V>(
    fname: Option<Seq<char>>,
    params: Seq<ParamDescription>,
    args: Seq<V>,
    kws: Seq<(Seq<char>, V)>,
    accept_args: bool,
    accept_kwargs: bool,
)
    requires
        args.len() + kws.len() <= params.len(),
    ensures
        !(bind_result::<V>(fname, params, args, kws, accept_args, accept_kwargs) matches Err(
            ArgErrorView::TooManyArguments { .. },
        )),
{
    if exists|i: int| first_failing_slot(params, i, args, kws) {
        let i = choose|i: int| first_failing_slot(params, i, args, kws);
        assert(first_failing_slot(params, i, args, kws));
    }
}

/// With extra arguments refused, a call that gives more arguments than
/// there are parameters fails for their number, reporting the parameter
/// count as the maximum.
pub proof fn law_excess_arguments<V>(
    fname: Option<Seq<char>>,
    params: Seq<ParamDescription>,
    args: Seq<V>,
    kws: Seq<(Seq<char>, V)>,
)
    requires
        args.len() + kws.len() > params.len(),
    ensures
        bind_result::<V>(fname, params, args, kws, false, false) == Err::<
            Seq<Option<&V>>,
            ArgErrorView,
        >(
            ArgErrorView::TooManyArguments {
                fname,
                max: params.len(),
                given: args.len() + kws.len(),
            },
        ),
{
}

/// A parameter given both at its position and by keyword makes the binding
/// fail with a duplicate naming it and its one-based position, once the
/// argument count and the parameters before it have passed.
pub proof fn law_duplicate_binding<V>(
    fname: Option<Seq<char>>,
    params: Seq<ParamDescription>,
    args: Seq<V>,
    kws: Seq<(Seq<char>, V)>,
    accept_args: bool,
    accept_kwargs: bool,
    i: int,
)
    requires
        0 <= i < params.len(),
        i < args.len(),
        exists|j: int| 0 <= j < kws.len() && kws[j].0 == params[i].name@,
        !too_many(params.len(), args.len(), kws.len(), accept_args, accept_kwargs),
        slots_ok(params, i, args, kws),
    ensures
        bind_result::<V>(fname, params, args, kws, accept_args, accept_kwargs) == Err::<
            Seq<Option<&V>>,
            ArgErrorView,
        >(ArgErrorView::DuplicateBinding { name: params[i].name@, position: (i + 1) as nat }),
{
    let j = choose|j: int| 0 <= j < kws.len() && kws[j].0 == params[i].name@;
    lemma_has_key(kws, params[i].name@, j);
    assert(first_failing_slot(params, i, args, kws));
    lemma_first_failure_reported(fname, params, args, kws, accept_args, accept_kwargs, i);
}

/// A required parameter that may be given by position, given neither at
/// its position nor by keyword, makes the binding fail naming it and its
/// one-based position, once the argument count and the parameters before
/// it have passed.
pub proof fn law_missing_positional<V>(
    fname: Option<Seq<char>>,
    params: Seq<ParamDescription>,
    args: Seq<V>,
    kws: Seq<(Seq<char>, V)>,
    accept_args: bool,
    accept_kwargs: bool,
    i: int,
)
    requires
        0 <= i < params.len(),
        !params[i].is_optional,
        !params[i].kw_only,
        i >= args.len(),
        forall|j: int| 0 <= j < kws.len() ==> kws[j].0 != params[i].name@,
        !too_many(params.len(), args.len(), kws.len(), accept_args, accept_kwargs),
        slots_ok(params, i, args, kws),
    ensures
        bind_result::<V>(fname, params, args, kws, accept_args, accept_kwargs) == Err::<
            Seq<Option<&V>>,
            ArgErrorView,
        >(
            ArgErrorView::MissingPositionalArgument {
                name: params[i].name@,
                position: (i + 1) as nat,
            },
        ),
{
    assert(!has_key(kws, params[i].name@));
    assert(first_failing_slot(params, i, args, kws));
    lemma_first_failure_reported(fname, params, args, kws, accept_args, accept_kwargs, i);
}

/// A required keyword-only parameter not given by keyword makes the binding
/// fail naming it, however many positional arguments there are, once the
/// argument count and the parameters before it have passed.
pub proof fn law_missing_keyword_only<V>(
    fname: Option<Seq<char>>,
    params: Seq<ParamDescription>,
    args: Seq<V>,
    kws: Seq<(Seq<char>, V)>,
    accept_args: bool,
    accept_kwargs: bool,
    i: int,
)
    requires
        0 <= i < params.len(),
        !params[i].is_optional,
        params[i].kw_only,
        forall|j: int| 0 <= j < kws.len() ==> kws[j].0 != params[i].name@,
        !too_many(params.len(), args.len(), kws.len(), accept_args, accept_kwargs),
        slots_ok(params, i, args, kws),
    ensures
        bind_result::<V>(fname, params, args, kws, accept_args, accept_kwargs) == Err::<
            Seq<Option<&V>>,
            ArgErrorView,
        >(ArgErrorView::MissingKeywordOnlyArgument { name: params[i].name@ }),
{
    assert(!has_key(kws, params[i].name@));
    assert(first_failing_slot(params, i, args, kws));
    lemma_first_failure_reported(fname, params, args, kws, accept_args, accept_kwargs, i);
}

/// Keyword lists that agree on which of the first `n` parameter names they
/// hold use equally many keywords for those parameters.
proof fn lemma_used_congruent<V>(
    params: Seq<ParamDescription>,
    kws: Seq<(Seq<char>, V)>,
    kws2: Seq<(Seq<char>, V)>,
    n: int,
)
    requires
        n <= params.len(),
        forall|i: int|
            0 <= i < n ==> has_key(kws, #[trigger] params[i].name@) == has_key(
                kws2,
                params[i].name@,
            ),
    ensures
        keywords_used(params, kws, n) == keywords_used(params, kws2, n),
    decreases n,
{
    if n > 0 {
        lemma_used_congruent(params, kws, kws2, n - 1);
        assert(has_key(kws, params[n - 1].name@) == has_key(kws2, params[n - 1].name@));
    }
}

/// Removing entry `j` keeps every other key present or absent as it was.
proof fn lemma_remove_keeps_other_keys<V>(kws: Seq<(Seq<char>, V)>, j: int, name: Seq<char>)
    requires
        0 <= j < kws.len(),
        kws[j].0 != name,
    ensures
        has_key(kws, name) == has_key(kws.remove(j), name),
{
    let r = kws.remove(j);
    if has_key(kws, name) {
        let k = choose|k: int| crate::params::first_with_key(kws, name, k);
        if k < j {
            lemma_has_key(r, name, k);
        } else {
            assert(r[k - 1] == kws[k]);
            lemma_has_key(r, name, k - 1);
        }
    }
    if has_key(r, name) {
        let k = choose|k: int| crate::params::first_with_key(r, name, k);
        if k < j {
            lemma_has_key(kws, name, k);
        } else {
            assert(r[k] == kws[k + 1]);
            lemma_has_key(kws, name, k + 1);
        }
    }
}

/// With distinct parameter names, a keyword that names none of the first
/// `n` parameters leaves fewer keywords used than given.
proof fn lemma_used_below_count<V>(
    params: Seq<ParamDescription>,
    kws: Seq<(Seq<char>, V)>,
    n: int,
    j0: int,
)
    requires
        0 <= n <= params.len(),
        names_distinct(params),
        0 <= j0 < kws.len(),
        forall|i: int| 0 <= i < n ==> #[trigger] params[i].name@ != kws[j0].0,
    ensures
        keywords_used(params, kws, n) < kws.len(),
    decreases n,
{
    if n > 0 {
        let name = params[n - 1].name@;
        if lookup::<V>(kws, name) is Some {
            let j = choose|j: int| crate::params::first_with_key(kws, name, j);
            assert(crate::params::first_with_key(kws, name, j));
            let r = kws.remove(j);
            assert forall|i: int| 0 <= i < n - 1 implies has_key(kws, #[trigger] params[i].name@)
                == has_key(r, params[i].name@) by {
                assert(params[i].name@ != params[n - 1].name@);
                lemma_remove_keeps_other_keys(kws, j, params[i].name@);
            }
            lemma_used_congruent(params, kws, r, n - 1);
            let j1 = if j0 < j {
                j0
            } else {
                j0 - 1
            };
            assert(j0 != j);
            assert(r[j1] == kws[j0]);
            lemma_used_below_count(params, r, n - 1, j1);
        } else {
            lemma_used_below_count(params, kws, n - 1, j0);
        }
    }
}

/// With extra keywords refused, a keyword that names no parameter makes the
/// binding fail naming exactly that keyword, once the argument count and
/// every parameter have passed and no earlier keyword is unknown; with
/// extra keywords collected the same call succeeds, and no parameter is
/// bound under that keyword.
pub proof fn law_unknown_keyword<V>(
    fname: Option<Seq<char>>,
    params: Seq<ParamDescription>,
    args: Seq<V>,
    kws: Seq<(Seq<char>, V)>,
    accept_args: bool,
    j: int,
)
    requires
        names_distinct(params),
        first_unknown_key(params, kws, j),
        accept_args || args.len() + kws.len() <= params.len(),
        slots_ok(params, params.len() as int, args, kws),
    ensures
        bind_result::<V>(fname, params, args, kws, accept_args, false) == Err::<
            Seq<Option<&V>>,
            ArgErrorView,
        >(ArgErrorView::UnexpectedKeywordArgument { name: kws[j].0 }),
        bind_result::<V>(fname, params, args, kws, accept_args, true) == Ok::<
            Seq<Option<&V>>,
            ArgErrorView,
        >(bindings(params, args, kws)),
        forall|i: int| 0 <= i < params.len() ==> #[trigger] params[i].name@ != kws[j].0,
{
    assert(forall|i: int| !first_failing_slot(params, i, args, kws));
    lemma_used_below_count(params, kws, params.len() as int, j);
    let c = choose|c: int| first_unknown_key(params, kws, c);
    assert(first_unknown_key(params, kws, c));
    if c < j {
        assert(is_param_name(params, kws[c].0));
    } else if j < c {
        assert(is_param_name(params, kws[j].0));
    }
}

} // verus!
