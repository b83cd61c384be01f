//! Laws of the registry, stated and proved over the same model functions
//! that the executable functions' contracts use.

use vstd::prelude::*;
use crate::consts::{alias_alphabet, alias_count, lifetime_count, TYPE_PARAMETERS_START};
use crate::bounds::{
    add_param_spec, addressable, alias_info_spec, base_alias_spec, alias_position,
    bound_import, extras_step, first_text_match, has_param_named, import_set,
    split_fixup_spec, text_or_empty, type_for_spec, AddParamResult, BoundModel, BoundType,
};
use crate::library::{Library, Param};

verus! {

/// Every position of the alias alphabet sits at its own offset from the
/// alphabet's first symbol.
pub proof fn lemma_alias_positions()
    ensures
        forall|i: int|
            0 <= i < alias_count() ==> alias_position(#[trigger] alias_alphabet()[i]) == i,
{
    assert forall|i: int|
        0 <= i < alias_count() implies alias_position(#[trigger] alias_alphabet()[i]) == i by {
        if i == 0 {
            assert(alias_alphabet()[0] == 'P');
        } else if i == 1 {
            assert(alias_alphabet()[1] == 'Q');
        } else if i == 2 {
            assert(alias_alphabet()[2] == 'R');
        } else if i == 3 {
            assert(alias_alphabet()[3] == 'S');
        } else if i == 4 {
            assert(alias_alphabet()[4] == 'T');
        } else if i == 5 {
            assert(alias_alphabet()[5] == 'U');
        } else if i == 6 {
            assert(alias_alphabet()[6] == 'V');
        } else if i == 7 {
            assert(alias_alphabet()[7] == 'W');
        } else if i == 8 {
            assert(alias_alphabet()[8] == 'X');
        } else if i == 9 {
            assert(alias_alphabet()[9] == 'Y');
        } else {
            assert(alias_alphabet()[10] == 'Z');
        }
    }
}

/// No two of the names are the same.
pub open spec fn distinct_names(names: Seq<Seq<char>>) -> bool {
    forall|a: int, b: int| 0 <= a < b < names.len() ==> names[a] != names[b]
}

/// The registry reached by registering the first `k` names, each as a plain
/// polymorphic parameter, into a fresh registry.
pub open spec fn poly_state(
    names: Seq<Seq<char>>,
    type_str: Seq<char>,
    nlt: nat,
    k: int,
) -> AddParamResult
    decreases k,
{
    if k <= 0 {
        AddParamResult { used: Seq::<BoundModel>::empty(), n_lifetimes: nlt, ok: true }
    } else {
        let prev = poly_state(names, type_str, nlt, k - 1);
        add_param_spec(
            prev.used,
            prev.n_lifetimes,
            names[k - 1],
            type_str,
            BoundType::IsA(None),
            false,
        )
    }
}

/// Registering distinct non-callback polymorphic parameters into a fresh
/// registry succeeds exactly while the alias alphabet lasts, fails from the
/// first registration past it, and assigns the aliases strictly in alphabet
/// order, one per registration.
pub proof fn lemma_polymorphic_fill(
    names: Seq<Seq<char>>,
    type_str: Seq<char>,
    nlt: nat,
    k: int,
)
    requires
        distinct_names(names),
        0 <= k <= names.len(),
    ensures
        ({
            let st = poly_state(names, type_str, nlt, k);
            &&& st.n_lifetimes == nlt
            &&& st.used.len() == if k <= alias_count() {
                k as nat
            } else {
                alias_count()
            }
            &&& forall|i: int|
                0 <= i < st.used.len() ==> #[trigger] st.used[i] == BoundModel {
                    bound_type: BoundType::IsA(None),
                    parameter_name: names[i],
                    alias: alias_alphabet()[i],
                    type_str,
                    info_for_next_type: false,
                    callback_modified: false,
                }
            &&& k > 0 ==> st.ok == (k <= alias_count())
        }),
    decreases k,
{
    if k > 0 {
        lemma_polymorphic_fill(names, type_str, nlt, k - 1);
        let prev = poly_state(names, type_str, nlt, k - 1);
        assert forall|i: int| 0 <= i < prev.used.len() implies (#[trigger] prev.used[i])
            .parameter_name != names[k - 1] by {
            assert(prev.used[i].parameter_name == names[i]);
            assert(names[i] != names[k - 1]);
        }
        assert(!has_param_named(prev.used, names[k - 1]));
        let st = poly_state(names, type_str, nlt, k);
        if prev.used.len() < alias_count() {
            assert(st.used == prev.used.push(
                BoundModel {
                    bound_type: BoundType::IsA(None),
                    parameter_name: names[k - 1],
                    alias: alias_alphabet()[prev.used.len() as int],
                    type_str,
                    info_for_next_type: false,
                    callback_modified: false,
                },
            ));
        }
    }
}

/// Re-registering an existing parameter name fails and consumes neither an
/// alias nor a scope tag.
pub proof fn lemma_duplicate_name_unchanged(
    used: Seq<BoundModel>,
    nlt: nat,
    name: Seq<char>,
    type_str: Seq<char>,
    bt: BoundType,
    is_async: bool,
)
    requires
        has_param_named(used, name),
        !(is_async && name == "callback"@),
    ensures
        add_param_spec(used, nlt, name, type_str, bt, is_async) == (AddParamResult {
            used,
            n_lifetimes: nlt,
            ok: false,
        }),
{
}

/// A name no addressable binding carries resolves to nothing: unregistered
/// names, shadow-only names and split companions are not addressable.
pub proof fn lemma_alias_info_none(used: Seq<BoundModel>, name: Seq<char>)
    requires
        forall|i: int|
            0 <= i < used.len() ==> !((#[trigger] used[i]).parameter_name == name
                && addressable(used[i])),
    ensures
        alias_info_spec(used, name) is None,
    decreases used.len(),
{
    if used.len() > 0 {
        assert(forall|i: int|
            0 <= i < used.drop_first().len() ==> used.drop_first()[i] == used[i + 1]);
        lemma_alias_info_none(used.drop_first(), name);
    }
}

/// The first addressable binding carrying a name is what the lookup
/// returns: its alias and its scheme.
pub proof fn lemma_alias_info_visible(used: Seq<BoundModel>, name: Seq<char>, i: int)
    requires
        0 <= i < used.len(),
        used[i].parameter_name == name,
        addressable(used[i]),
        forall|k: int|
            0 <= k < i ==> !((#[trigger] used[k]).parameter_name == name
                && addressable(used[k])),
    ensures
        alias_info_spec(used, name) == Some((used[i].alias, used[i].bound_type)),
    decreases i,
{
    if i > 0 {
        assert(forall|k: int|
            0 <= k < used.drop_first().len() ==> used.drop_first()[k] == used[k + 1]);
        lemma_alias_info_visible(used.drop_first(), name, i - 1);
    }
}

/// After any successful registration of a fresh name, the lookup returns
/// the alias and scheme of the binding that was just made visible.
pub proof fn lemma_alias_info_after_add(
    used: Seq<BoundModel>,
    nlt: nat,
    name: Seq<char>,
    type_str: Seq<char>,
    bt: BoundType,
    is_async: bool,
)
    requires
        !has_param_named(used, name),
        add_param_spec(used, nlt, name, type_str, bt, is_async).ok,
    ensures
        ({
            let r = add_param_spec(used, nlt, name, type_str, bt, is_async);
            alias_info_spec(r.used, name) == Some((r.used.last().alias, r.used.last().bound_type))
        }),
{
    let r = add_param_spec(used, nlt, name, type_str, bt, is_async);
    assert forall|k: int| 0 <= k < used.len() implies (#[trigger] used[k]).parameter_name
        != name by {
        assert(!has_param_named(used, name));
    }
    if is_async && name == "callback"@ {
        lemma_alias_info_visible(r.used, name, used.len() as int);
    } else {
        match bt {
            BoundType::Into(Some(_), x) => {
                match x {
                    Some(_) => {
                        assert(r.used[used.len() as int].info_for_next_type);
                        lemma_alias_info_visible(r.used, name, used.len() as int + 1);
                    },
                    None => {
                        lemma_alias_info_visible(r.used, name, used.len() as int);
                    },
                }
            },
            _ => {
                lemma_alias_info_visible(r.used, name, used.len() as int);
            },
        }
    }
}

/// A conversion with a nested scheme appends exactly two bindings: first
/// the shadow, then the visible binding; the visible binding's predecessor
/// lookup yields the shadow's alias, the shadow's own predecessor lookup
/// yields nothing, and the first symbol of the alphabet never has a
/// predecessor.
pub proof fn lemma_conversion_nested_two_bindings(
    used: Seq<BoundModel>,
    nlt: nat,
    name: Seq<char>,
    type_str: Seq<char>,
    bt: BoundType,
)
    requires
        !has_param_named(used, name),
        bt matches BoundType::Into(Some(_), Some(_)),
        nlt < lifetime_count(),
        used.len() + 2 <= alias_count(),
        used.len() == 0 || !used[used.len() - 1].info_for_next_type,
    ensures
        ({
            let r = add_param_spec(used, nlt, name, type_str, bt, false);
            let n = used.len() as int;
            &&& r.ok
            &&& r.used.len() == used.len() + 2
            &&& r.used[n].info_for_next_type
            &&& !r.used[n + 1].info_for_next_type
            &&& base_alias_spec(r.used, r.used[n + 1].alias) == Some(r.used[n].alias)
            &&& base_alias_spec(r.used, r.used[n].alias) is None
            &&& base_alias_spec(r.used, TYPE_PARAMETERS_START) is None
        }),
{
    lemma_alias_positions();
    let r = add_param_spec(used, nlt, name, type_str, bt, false);
    let n = used.len() as int;
    assert(r.used[n].alias == alias_alphabet()[n]);
    assert(r.used[n + 1].alias == alias_alphabet()[n + 1]);
    assert(alias_position(r.used[n + 1].alias) == n + 1);
    assert(alias_position(r.used[n].alias) == n);
    assert(alias_position(TYPE_PARAMETERS_START) == 0);
    if n > 0 {
        assert(r.used[n - 1] == used[n - 1]);
        assert(!r.used[n - 1].info_for_next_type);
    }
}

/// Pushing a binding does not change the position of an existing first
/// match, and creates one at the end when none existed and the texts agree.
proof fn lemma_first_text_match_push(used: Seq<BoundModel>, b: BoundModel, text: Seq<char>)
    ensures
        first_text_match(used.push(b), text) == match first_text_match(used, text) {
            Some(i) => Some(i),
            None => if b.type_str == text {
                Some(used.len() as int)
            } else {
                None::<int>
            },
        },
    decreases used.len(),
{
    if used.len() == 0 {
        assert(used.push(b)[0] == b);
        assert(used.push(b).drop_first() =~= Seq::<BoundModel>::empty());
        assert(first_text_match(Seq::<BoundModel>::empty(), text) is None);
        if b.type_str == text {
            assert(first_text_match(used.push(b), text) == Some(0int));
        } else {
            assert(first_text_match(used.push(b), text) is None);
        }
        assert(first_text_match(used, text) is None);
    } else {
        assert(used.push(b)[0] == used[0]);
        assert(used.push(b).drop_first() =~= used.drop_first().push(b));
        lemma_first_text_match_push(used.drop_first(), b, text);
    }
}

/// The registry state after the first `k` sub-parameters of a nested
/// signature have been walked.
pub open spec fn extras_state(
    used0: Seq<BoundModel>,
    lib: Library,
    params: Seq<Param>,
    k: int,
) -> Seq<BoundModel>
    decreases k,
{
    if k <= 0 {
        used0
    } else {
        extras_step(extras_state(used0, lib, params, k - 1), lib, params[k - 1]).used
    }
}

/// An established first match for a text survives the rest of the walk.
proof fn lemma_first_match_preserved(
    used0: Seq<BoundModel>,
    lib: Library,
    params: Seq<Param>,
    text: Seq<char>,
    p: int,
    k1: int,
    k2: int,
)
    requires
        0 <= k1 <= k2,
        first_text_match(extras_state(used0, lib, params, k1), text) == Some(p),
    ensures
        first_text_match(extras_state(used0, lib, params, k2), text) == Some(p),
    decreases k2 - k1,
{
    if k1 < k2 {
        let cur = extras_state(used0, lib, params, k1);
        let next = extras_state(used0, lib, params, k1 + 1);
        let s = extras_step(cur, lib, params[k1]);
        assert(next == s.used);
        let t2 = text_or_empty(lib, params[k1].typ);
        match first_text_match(cur, t2) {
            Some(_) => {
                assert(s.used == cur);
            },
            None => {
                if type_for_spec(lib, params[k1].typ, params[k1].nullable) == Some(
                    BoundType::IsA(None),
                ) && cur.len() < alias_count() {
                    let b = BoundModel {
                        bound_type: BoundType::IsA(None),
                        parameter_name: params[k1].name@,
                        alias: alias_alphabet()[cur.len() as int],
                        type_str: t2,
                        info_for_next_type: false,
                        callback_modified: false,
                    };
                    assert(s.used == cur.push(b));
                    lemma_first_text_match_push(cur, b, text);
                } else {
                    assert(s.used == cur);
                }
            },
        }
        lemma_first_match_preserved(used0, lib, params, text, p, k1 + 1, k2);
    }
}

/// Two sub-parameters whose types render to the identical text share one
/// extra bound: the later one reuses the position of the earlier one, and
/// no second binding is created for it.
pub proof fn lemma_fnptr_dedup(
    used0: Seq<BoundModel>,
    lib: Library,
    params: Seq<Param>,
    i: int,
    j: int,
)
    requires
        0 <= i < j < params.len(),
        text_or_empty(lib, params[i].typ) == text_or_empty(lib, params[j].typ),
        type_for_spec(lib, params[j].typ, params[j].nullable) == Some(BoundType::IsA(None)),
        ({
            let si = extras_state(used0, lib, params, i);
            let stepi = extras_step(si, lib, params[i]);
            stepi.positions.len() == 1
        }),
    ensures
        ({
            let si = extras_state(used0, lib, params, i);
            let stepi = extras_step(si, lib, params[i]);
            let sj = extras_state(used0, lib, params, j);
            let stepj = extras_step(sj, lib, params[j]);
            &&& stepj.positions == stepi.positions
            &&& stepj.used == sj
        }),
{
    let text = text_or_empty(lib, params[i].typ);
    let si = extras_state(used0, lib, params, i);
    let stepi = extras_step(si, lib, params[i]);
    let p = stepi.positions[0];
    // a step records a position only for a sub-parameter that classifies as
    // plain polymorphic
    assert(type_for_spec(lib, params[i].typ, params[i].nullable) == Some(BoundType::IsA(None)));
    match first_text_match(si, text) {
        Some(q) => {
            assert(stepi.positions == seq![q]);
            assert(first_text_match(extras_state(used0, lib, params, i + 1), text) == Some(p));
        },
        None => {
            if si.len() < alias_count() {
                let b = BoundModel {
                    bound_type: BoundType::IsA(None),
                    parameter_name: params[i].name@,
                    alias: alias_alphabet()[si.len() as int],
                    type_str: text,
                    info_for_next_type: false,
                    callback_modified: false,
                };
                assert(stepi.used == si.push(b));
                assert(stepi.positions == seq![si.len() as int]);
                lemma_first_text_match_push(si, b, text);
                assert(first_text_match(extras_state(used0, lib, params, i + 1), text) == Some(
                    p,
                ));
            } else {
                assert(stepi.positions.len() == 0);
                assert(false);
            }
        },
    }
    lemma_first_match_preserved(used0, lib, params, text, p, i + 1, j);
    let sj = extras_state(used0, lib, params, j);
    assert(first_text_match(sj, text_or_empty(lib, params[j].typ)) == Some(p));
    assert(extras_step(sj, lib, params[j]).positions =~= seq![p]);
    assert(stepi.positions =~= seq![p]);
}

/// The shape the split-companion fix-up leaves behind: the demoted binding
/// keeps its alias but loses its scheme and its name; the appended
/// companion carries the demoted binding's original scheme and name, the
/// next alias of the alphabet, and renders as the demoted binding's alias.
pub proof fn lemma_split_companion_shape(used: Seq<BoundModel>)
    requires
        0 < used.len() < alias_count(),
    ensures
        ({
            let r = split_fixup_spec(used);
            let n = used.len() as int;
            &&& r.len() == used.len() + 1
            &&& r[n - 1].bound_type is NoWrapper
            &&& r[n - 1].parameter_name == Seq::<char>::empty()
            &&& r[n - 1].alias == used[n - 1].alias
            &&& r[n - 1].type_str == used[n - 1].type_str
            &&& r[n].bound_type == used[n - 1].bound_type
            &&& r[n].parameter_name == used[n - 1].parameter_name
            &&& r[n].type_str == seq![used[n - 1].alias]
            &&& r[n].alias == alias_alphabet()[n]
            &&& r[n].callback_modified
            &&& forall|k: int| 0 <= k < n - 1 ==> r[k] == used[k]
        }),
{
}

/// Import derivation is order-independent: two registries holding the same
/// bindings in any order require the same import set.
pub proof fn lemma_import_set_order_independent(a: Seq<BoundModel>, b: Seq<BoundModel>)
    requires
        a.to_multiset() == b.to_multiset(),
    ensures
        import_set(a) == import_set(b),
{
    a.to_multiset_ensures();
    b.to_multiset_ensures();
    assert forall|s: Seq<char>| import_set(a).contains(s) implies import_set(b).contains(s) by {
        let i = choose|i: int| 0 <= i < a.len() && bound_import(#[trigger] a[i]) == Some(s);
        assert(a.contains(a[i]));
        assert(a.to_multiset().count(a[i]) > 0);
        assert(b.contains(a[i]));
        let j = choose|j: int| 0 <= j < b.len() && b[j] == a[i];
        assert(bound_import(b[j]) == Some(s));
    }
    assert forall|s: Seq<char>| import_set(b).contains(s) implies import_set(a).contains(s) by {
        let i = choose|i: int| 0 <= i < b.len() && bound_import(#[trigger] b[i]) == Some(s);
        assert(b.contains(b[i]));
        assert(b.to_multiset().count(b[i]) > 0);
        assert(a.contains(b[i]));
        let j = choose|j: int| 0 <= j < a.len() && a[j] == b[i];
        assert(bound_import(a[j]) == Some(s));
    }
    assert(import_set(a) =~= import_set(b));
}

} // verus!

verus! {

/// The split-companion fix-up fires exactly when the registered binding's
/// scheme was a conversion: then the registry ends in the demoted binding
/// and its companion; for any other scheme the registration stands alone
/// and nothing is appended.
pub proof fn lemma_split_fires_only_for_conversion(
    used0: Seq<BoundModel>,
    nlt0: nat,
    lib: Library,
    par: crate::library::CParameter,
    bt: BoundType,
    is_async: bool,
    conc: crate::library::Concurrency,
)
    requires
        !crate::bounds::afp_fnptr(used0, nlt0, lib, par, bt, is_async, conc).fatal,
    ensures
        ({
            let res = crate::bounds::afp_fnptr(used0, nlt0, lib, par, bt, is_async, conc);
            let fparams = match lib.spec_type(par.typ) {
                crate::library::Type::Function(f) => f.parameters@,
                _ => Seq::<Param>::empty(),
            };
            let ex = crate::bounds::extras_fold(used0, lib, fparams, 0);
            let add = add_param_spec(
                ex.used,
                nlt0,
                par.name@,
                crate::bounds::callback_text_spec(
                    ex.used,
                    crate::bounds::text_or_empty(lib, par.typ),
                    ex.positions,
                    conc,
                ),
                bt,
                is_async,
            );
            &&& (add.used.last().bound_type matches BoundType::Into(_, _) ==> res.used
                == split_fixup_spec(add.used))
            &&& (!(add.used.last().bound_type matches BoundType::Into(_, _)) ==> res.used
                == add.used)
        }),
{
}

} // verus!
