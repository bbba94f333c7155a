use vstd::prelude::*;
use vstd::string::StringExecFns;

use crate::arg_error::{ArgError, ArgErrorView};
use crate::params::{lookup, names_equal, KeywordArgs, ParamDescription};

verus! {

/// The keyword entries of a call, none when the call has no keyword mapping.
pub open spec fn keyword_entries<V>(kwargs: Option<&KeywordArgs<V>>) -> Seq<(Seq<char>, V)> {
    match kwargs {
        Some(d) => d@,
        None => Seq::empty(),
    }
}

/// The name of a callable as errors carry it.
pub open spec fn name_view(fname: Option<&str>) -> Option<Seq<char>> {
    match fname {
        Some(f) => Some(f@),
        None => None,
    }
}

/// True when the call has more arguments than parameters and the callable
/// collects no extra arguments.
pub open spec fn too_many(
    n_params: nat,
    n_pos: nat,
    n_kw: nat,
    accept_args: bool,
    accept_kwargs: bool,
) -> bool {
    !accept_args && !accept_kwargs && n_pos + n_kw > n_params
}

/// What parameter `p`, declared at index `i`, receives: a value, nothing,
/// or an error.
pub open spec fn slot_outcome<'x, V>(
    p: ParamDescription,
    i: int,
    args: Seq<V>,
    kws: Seq<(Seq<char>, V)>,
) -> Result<Option<&'x V>, ArgErrorView> {
    match lookup::<V>(kws, p.name@) {
        Some(v) => if i < args.len() {
            Err(ArgErrorView::DuplicateBinding { name: p.name@, position: (i + 1) as nat })
        } else {
            Ok(Some(v))
        },
        None => if p.kw_only {
            if !p.is_optional {
                Err(ArgErrorView::MissingKeywordOnlyArgument { name: p.name@ })
            } else {
                Ok(None)
            }
        } else if i < args.len() {
            Ok(Some(&args[i]))
        } else if !p.is_optional {
            Err(ArgErrorView::MissingPositionalArgument { name: p.name@, position: (i + 1) as nat })
        } else {
            Ok(None)
        },
    }
}

/// The value bound to parameter `i`, absent when it receives nothing.
pub open spec fn slot_value<'x, V>(
    params: Seq<ParamDescription>,
    i: int,
    args: Seq<V>,
    kws: Seq<(Seq<char>, V)>,
) -> Option<&'x V> {
    match slot_outcome::<V>(params[i], i, args, kws) {
        Ok(v) => v,
        Err(_) => None,
    }
}

/// True when parameters `0..n` all receive a value or nothing, without error.
pub open spec fn slots_ok<V>(
    params: Seq<ParamDescription>,
    n: int,
    args: Seq<V>,
    kws: Seq<(Seq<char>, V)>,
) -> bool {
    forall|k: int| 0 <= k < n ==> (#[trigger] slot_outcome::<V>(params[k], k, args, kws)) is Ok
}

/// True when parameter `i` is the first one whose binding fails.
pub open spec fn first_failing_slot<V>(
    params: Seq<ParamDescription>,
    i: int,
    args: Seq<V>,
    kws: Seq<(Seq<char>, V)>,
) -> bool {
    &&& 0 <= i < params.len()
    &&& slot_outcome::<V>(params[i], i, args, kws) is Err
    &&& slots_ok(params, i, args, kws)
}

/// How many of parameters `0..n` find their name among the keywords.
pub open spec fn keywords_used<V>(
    params: Seq<ParamDescription>,
    kws: Seq<(Seq<char>, V)>,
    n: int,
) -> nat
    decreases n,
{
    if n <= 0 {
        0
    } else {
        keywords_used(params, kws, n - 1) + if lookup::<V>(kws, params[n - 1].name@) is Some {
            1nat
        } else {
            0nat
        }
    }
}

/// True when some declared parameter is called `name`.
pub open spec fn is_param_name(params: Seq<ParamDescription>, name: Seq<char>) -> bool {
    exists|i: int| 0 <= i < params.len() && #[trigger] params[i].name@ == name
}

/// True when entry `j` is the first keyword that names no parameter.
pub open spec fn first_unknown_key<V>(
    params: Seq<ParamDescription>,
    kws: Seq<(Seq<char>, V)>,
    j: int,
) -> bool {
    &&& 0 <= j < kws.len()
    &&& !is_param_name(params, kws[j].0)
    &&& forall|k: int| 0 <= k < j ==> is_param_name(params, #[trigger] kws[k].0)
}

/// The binding of every parameter, in declaration order.
pub open spec fn bindings<'x, V>(
    params: Seq<ParamDescription>,
    args: Seq<V>,
    kws: Seq<(Seq<char>, V)>,
) -> Seq<Option<&'x V>> {
    Seq::new(params.len(), |i: int| slot_value::<V>(params, i, args, kws))
}

/// The result of binding a call's arguments to the parameters `params`.
///
/// The checks come in this order: the argument count; then each parameter
/// in declaration order; then, when the callable collects no extra
/// keywords and fewer keywords were used than given, the keywords in order.
pub open spec fn bind_result<'x, V>(
    fname: Option<Seq<char>>,
    params: Seq<ParamDescription>,
    args: Seq<V>,
    kws: Seq<(Seq<char>, V)>,
    accept_args: bool,
    accept_kwargs: bool,
) -> Result<Seq<Option<&'x V>>, ArgErrorView> {
    if too_many(params.len(), args.len(), kws.len(), accept_args, accept_kwargs) {
        Err(
            ArgErrorView::TooManyArguments {
                fname,
                max: params.len(),
                given: args.len() + kws.len(),
            },
        )
    } else if exists|i: int| first_failing_slot(params, i, args, kws) {
        let i = choose|i: int| first_failing_slot(params, i, args, kws);
        Err(slot_outcome::<V>(params[i], i, args, kws)->Err_0)
    } else if !accept_kwargs && keywords_used(params, kws, params.len() as int) != kws.len()
        && exists|j: int| first_unknown_key(params, kws, j) {
        let j = choose|j: int| first_unknown_key(params, kws, j);
        Err(ArgErrorView::UnexpectedKeywordArgument { name: kws[j].0 })
    } else {
        Ok(bindings(params, args, kws))
    }
}

/// Whether some parameter of `params` is called `name`.
fn is_declared(params: &[ParamDescription], name: &str) -> (r: bool)
    ensures
        r == is_param_name(params@, name@),
{
    let mut i: usize = 0;
    while i < params.len()
        invariant
            i <= params@.len(),
            forall|k: int| 0 <= k < i ==> params@[k].name@ != name@,
        decreases params@.len() - i,
    {
        if names_equal(params[i].name, name) {
            return true;
        }
        i = i + 1;
    }
    false
}

/// Binds the arguments of one call to the declared parameters.
///
/// `args` are the positional arguments and `kwargs` the keyword arguments;
/// `accept_args` and `accept_kwargs` say whether the callable collects extra
/// positional and keyword arguments. On success `output[i]` holds the value
/// bound to parameter `i`, or `None` where the parameter receives nothing.
pub fn parse_fn_args<'p, V>(
    fname: Option<&str>,
    params: &[ParamDescription],
    args: &'p [V],
    kwargs: Option<&'p KeywordArgs<'p, V>>,
    accept_args: bool,
    accept_kwargs: bool,
    output: &mut [Option<&'p V>],
) -> (r: Result<(), ArgError>)
    requires
        old(output)@.len() == params@.len(),
    ensures
        final(output)@.len() == params@.len(),
        match r {
            Ok(()) => bind_result(
                name_view(fname),
                params@,
                args@,
                keyword_entries(kwargs),
                accept_args,
                accept_kwargs,
            ) == Ok::<Seq<Option<&V>>, ArgErrorView>(final(output)@),
            Err(e) => bind_result::<V>(
                name_view(fname),
                params@,
                args@,
                keyword_entries(kwargs),
                accept_args,
                accept_kwargs,
            ) == Err::<Seq<Option<&V>>, ArgErrorView>(e@),
        },
{
    let ghost kws = keyword_entries(kwargs);
    let nargs = args.len();
    let nkeywords = match kwargs {
        Some(d) => d.len(),
        None => 0,
    };
    if !accept_args && !accept_kwargs && (nargs > params.len() || nkeywords > params.len()
        - nargs) {
        let name = match fname {
            Some(f) => Some(String::from_str(f)),
            None => None,
        };
        return Err(
            ArgError::TooManyArguments {
                fname: name,
                max: params.len(),
                given: nargs as u128 + nkeywords as u128,
            },
        );
    }
    let mut used: usize = 0;
    let mut i: usize = 0;
    while i < params.len()
        invariant
            kws == keyword_entries(kwargs),
            nargs == args@.len(),
            nkeywords == kws.len(),
            !too_many(params@.len(), args@.len(), kws.len(), accept_args, accept_kwargs),
            output@.len() == params@.len(),
            i <= params@.len(),
            slots_ok(params@, i as int, args@, kws),
            forall|k: int| 0 <= k < i ==> output@[k] == slot_value::<V>(params@, k, args@, kws),
            used == keywords_used(params@, kws, i as int),
            used <= i,
            kwargs is None ==> used == 0,
        decreases params@.len() - i,
    {
        let p = &params[i];
        let found = match kwargs {
            Some(d) => d.get_item(p.name),
            None => None,
        };
        match found {
            Some(v) => {
                output[i] = Some(v);
                used = used + 1;
                if i < nargs {
                    proof {
                        assert(first_failing_slot(params@, i as int, args@, kws));
                    }
                    return Err(
                        ArgError::DuplicateBinding {
                            name: String::from_str(p.name),
                            position: i + 1,
                        },
                    );
                }
            },
            None => {
                if p.kw_only {
                    if !p.is_optional {
                        proof {
                            assert(first_failing_slot(params@, i as int, args@, kws));
                        }
                        return Err(
                            ArgError::MissingKeywordOnlyArgument { name: String::from_str(p.name) },
                        );
                    }
                    output[i] = None;
                } else if i < nargs {
                    output[i] = Some(&args[i]);
                } else {
                    output[i] = None;
                    if !p.is_optional {
                        proof {
                            assert(first_failing_slot(params@, i as int, args@, kws));
                        }
                        return Err(
                            ArgError::MissingPositionalArgument {
                                name: String::from_str(p.name),
                                position: i + 1,
                            },
                        );
                    }
                }
            },
        }
        i = i + 1;
    }
    assert(forall|k: int| !first_failing_slot(params@, k, args@, kws));
    if !accept_kwargs && used != nkeywords {
        if let Some(d) = kwargs {
            let mut j: usize = 0;
            while j < d.len()
                invariant
                    kws == d@,
                    kws == keyword_entries(kwargs),
                    j <= kws.len(),
                    output@.len() == params@.len(),
                    !accept_kwargs,
                    !too_many(params@.len(), args@.len(), kws.len(), accept_args, accept_kwargs),
                    forall|k: int| !first_failing_slot(params@, k, args@, kws),
                    keywords_used(params@, kws, params@.len() as int) != kws.len(),
                    forall|k: int| 0 <= k < j ==> is_param_name(params@, #[trigger] kws[k].0),
                decreases kws.len() - j,
            {
                let key = d.key_at(j);
                if !is_declared(params, key) {
                    proof {
                        assert(first_unknown_key(params@, kws, j as int));
                    }
                    return Err(ArgError::UnexpectedKeywordArgument { name: String::from_str(key) });
                }
                j = j + 1;
            }
            assert(forall|k: int| !first_unknown_key(params@, kws, k));
        }
    }
    proof {
        assert(final(output)@ =~= bindings::<V>(params@, args@, kws));
    }
    Ok(())
}

} // verus!
