//! The per-function signature registry.
//!
//! A registry owns the pools of generic-parameter aliases and scope tags for
//! one generated function, and the ordered list of bindings resolved so far.
//! Aliases are handed out strictly in alphabet order, are unique within one
//! registry, and are never returned to the pool; the list order is the call
//! order, which the alias-predecessor lookup depends on.

use vstd::prelude::*;
use crate::consts::{alias_alphabet, alias_count, lifetime_alphabet, lifetime_count};
use crate::strutil::{char_to_string, str_eq, string_eq_str};
use crate::imports::Imports;
use crate::library::{
    async_param_to_remove, find_fn_spec, find_index_to_ignore, finish_function_name,
    finish_name_spec, index_to_ignore_spec, rust_type, use_function_return_for_result,
    use_return_spec, CParameter, Concurrency, Env, Function, Fundamental, Library, Nullable,
    Param, ParameterDirection, Type,
};

verus! {

/// The ownership/conversion scheme required for a parameter's generated
/// type.
#[derive(PartialEq, Eq, Debug)]
pub enum BoundType {
    /// The parameter is passed with its concrete type, no wrapper.
    NoWrapper,
    /// Any subtype of a class or interface, passed by reference; the payload
    /// is the scope tag, if one was attached.
    IsA(Option<char>),
    /// A borrowed reference; the payload is the scope tag, if one was
    /// attached.
    AsRef(Option<char>),
    /// Anything convertible into the target type; the payloads are the scope
    /// tag, if one is needed, and the nested scheme, if one is wrapped.
    Into(Option<char>, Option<Box<BoundType>>),
}

impl BoundType {
    /// Whether this scheme is a conversion wrapper.
    pub fn is_into(&self) -> (r: bool)
        ensures
            r == (self matches BoundType::Into(_, _)),
    {
        match *self {
            BoundType::Into(_, _) => true,
            _ => false,
        }
    }

    /// Whether this scheme, or the scheme nested in it, demands the
    /// polymorphism-capability marker.
    pub fn need_isa(&self) -> (r: bool)
        ensures
            r == need_isa_spec(*self),
        decreases *self,
    {
        match *self {
            BoundType::IsA(_) => true,
            BoundType::Into(_, Some(ref bound_type)) => bound_type.need_isa(),
            _ => false,
        }
    }

    /// Attach a freshly reserved scope tag to a scheme.
    fn with_lifetime(ty_: BoundType, lifetime: char) -> (r: BoundType)
        requires
            !(ty_ is NoWrapper),
        ensures
            r == with_lifetime_spec(ty_, lifetime),
    {
        match ty_ {
            BoundType::NoWrapper => ty_,
            BoundType::IsA(_) => BoundType::IsA(Some(lifetime)),
            BoundType::AsRef(_) => BoundType::AsRef(Some(lifetime)),
            BoundType::Into(_, x) => BoundType::Into(Some(lifetime), x),
        }
    }
}

/// Whether a scheme or its nested scheme is polymorphic.
pub open spec fn need_isa_spec(bt: BoundType) -> bool
    decreases bt,
{
    match bt {
        BoundType::IsA(_) => true,
        BoundType::Into(_, Some(nested)) => need_isa_spec(*nested),
        _ => false,
    }
}

/// The scheme with a scope tag attached.
pub open spec fn with_lifetime_spec(bt: BoundType, lifetime: char) -> BoundType {
    match bt {
        BoundType::NoWrapper => BoundType::NoWrapper,
        BoundType::IsA(_) => BoundType::IsA(Some(lifetime)),
        BoundType::AsRef(_) => BoundType::AsRef(Some(lifetime)),
        BoundType::Into(_, x) => BoundType::Into(Some(lifetime), x),
    }
}

/// A conversion wrapping a scheme that is itself a plain `NoWrapper`: no
/// scope tag can be attached to the nested scheme, so such a value must not
/// reach the shadow-binding path.
pub open spec fn nested_nowrapper(bt: BoundType) -> bool {
    match bt {
        BoundType::Into(lt, Some(nested)) => lt is Some && *nested is NoWrapper,
        _ => false,
    }
}

fn clone_bound_type(t: &BoundType) -> (r: BoundType)
    ensures
        r == *t,
    decreases *t,
{
    match t {
        BoundType::NoWrapper => BoundType::NoWrapper,
        BoundType::IsA(l) => BoundType::IsA(*l),
        BoundType::AsRef(l) => BoundType::AsRef(*l),
        BoundType::Into(l, x) => {
            let nested = match x {
                Some(b) => Some(Box::new(clone_bound_type(&**b))),
                None => None,
            };
            BoundType::Into(*l, nested)
        }
    }
}

fn clone_nested(x: &Option<Box<BoundType>>) -> (r: Option<Box<BoundType>>)
    ensures
        r == *x,
{
    match x {
        Some(b) => Some(Box::new(clone_bound_type(&**b))),
        None => None,
    }
}

impl Clone for BoundType {
    fn clone(&self) -> (res: Self)
        ensures
            res == *self,
    {
        clone_bound_type(self)
    }
}

/// One resolved generic-parameter slot.
#[derive(Debug)]
pub struct Bound {
    pub bound_type: BoundType,
    pub parameter_name: String,
    pub alias: char,
    pub type_str: String,
    /// A shadow binding: it exists only to hold the nested scheme's own
    /// generic symbol for the binding registered right after it, and is not
    /// addressable by parameter name.
    pub info_for_next_type: bool,
    /// A split companion: a synthesized secondary generic whose rendered
    /// type is the alias of the binding before it.
    pub callback_modified: bool,
}

/// The mathematical value of one binding.
pub struct BoundModel {
    pub bound_type: BoundType,
    pub parameter_name: Seq<char>,
    pub alias: char,
    pub type_str: Seq<char>,
    pub info_for_next_type: bool,
    pub callback_modified: bool,
}

impl View for Bound {
    type V = BoundModel;

    open spec fn view(&self) -> BoundModel {
        BoundModel {
            bound_type: self.bound_type,
            parameter_name: self.parameter_name@,
            alias: self.alias,
            type_str: self.type_str@,
            info_for_next_type: self.info_for_next_type,
            callback_modified: self.callback_modified,
        }
    }
}

impl Clone for Bound {
    fn clone(&self) -> (res: Self)
        ensures
            res@ == self@,
    {
        Bound {
            bound_type: self.bound_type.clone(),
            parameter_name: self.parameter_name.clone(),
            alias: self.alias,
            type_str: self.type_str.clone(),
            info_for_next_type: self.info_for_next_type,
            callback_modified: self.callback_modified,
        }
    }
}

/// The specialized signature synthesized for a callback parameter.
#[derive(Clone, Debug, PartialEq, Eq)]
pub struct CallbackInfo {
    pub callback_type: String,
    pub success_parameters: String,
    pub error_parameters: String,
    pub bound_name: char,
}

/// The per-function registry: alias pool, binding list, scope-tag pool and
/// the tags already attached.
#[derive(Clone, Debug)]
pub struct Bounds {
    unused: Vec<char>,
    used: Vec<Bound>,
    unused_lifetimes: Vec<char>,
    lifetimes: Vec<char>,
}

/// Whether some binding already carries this parameter name.
pub open spec fn has_param_named(used: Seq<BoundModel>, name: Seq<char>) -> bool {
    exists|i: int| 0 <= i < used.len() && (#[trigger] used[i]).parameter_name == name
}

impl Bounds {
    /// The bindings resolved so far, in call order.
    pub closed spec fn used_model(&self) -> Seq<BoundModel> {
        Seq::new(self.used@.len(), |i: int| self.used@[i]@)
    }

    /// How many scope tags have been consumed.
    pub closed spec fn n_lifetimes(&self) -> nat {
        self.lifetimes@.len()
    }

    /// The registry's invariant: the pools are what is left of the two
    /// alphabets, aliases stand in hand-out order, and a shadow binding is
    /// always directly followed by its owner (except when the alias pool ran
    /// out right after the shadow was committed).
    pub closed spec fn wf(&self) -> bool {
        &&& self.used@.len() <= alias_count()
        &&& self.unused@ == alias_alphabet().skip(self.used@.len() as int)
        &&& forall|i: int|
            0 <= i < self.used@.len() ==> (#[trigger] self.used@[i])@.alias == alias_alphabet()[i]
        &&& self.lifetimes@.len() <= lifetime_count()
        &&& self.unused_lifetimes@ == lifetime_alphabet().skip(self.lifetimes@.len() as int)
        &&& self.lifetimes@ == lifetime_alphabet().take(self.lifetimes@.len() as int)
        &&& forall|i: int|
            0 <= i && i + 1 < self.used@.len() && (#[trigger] self.used@[i])@.info_for_next_type
                ==> !self.used@[i + 1]@.info_for_next_type
        &&& (0 < self.used@.len() < alias_count()
            ==> !self.used@[self.used@.len() - 1]@.info_for_next_type)
    }

    /// No binding has been registered.
    pub fn is_empty(&self) -> (r: bool)
        ensures
            r == (self.used_model().len() == 0),
    {
        self.used.len() == 0
    }

    /// The bindings, in call order.
    pub fn iter(&self) -> (r: &Vec<Bound>)
        ensures
            r@.len() == self.used_model().len(),
            forall|i: int| 0 <= i < r@.len() ==> (#[trigger] r@[i])@ == self.used_model()[i],
    {
        &self.used
    }

    /// The scope tags attached so far, in hand-out order.
    pub fn iter_lifetimes(&self) -> (r: &Vec<char>)
        ensures
            r@.len() == self.n_lifetimes(),
            self.wf() ==> r@ == lifetime_alphabet().take(self.n_lifetimes() as int),
    {
        &self.lifetimes
    }
}

/// The outcome of one registration: the binding list and tag count after the
/// call, and whether it succeeded.
pub struct AddParamResult {
    pub used: Seq<BoundModel>,
    pub n_lifetimes: nat,
    pub ok: bool,
}

/// What `Bounds::add_parameter` does, as a function of the registry's value.
///
/// An asynchronous callback slot always consumes one fresh alias for a plain
/// `NoWrapper` binding. A duplicate parameter name changes nothing. A
/// conversion that needs a scope tag reserves the tag before any alias is
/// consumed; with a nested scheme it appends a shadow binding and then the
/// visible binding, whose rendered type is the shadow's alias. Exhaustion of
/// a pool at the point a symbol is needed yields `false`, with nothing
/// beyond what was already committed.
pub open spec fn add_param_spec(
    used: Seq<BoundModel>,
    nlt: nat,
    name: Seq<char>,
    type_str: Seq<char>,
    bt: BoundType,
    is_async: bool,
) -> AddParamResult {
    let n = used.len();
    if is_async && name == "callback"@ {
        if n < alias_count() {
            AddParamResult {
                used: used.push(
                    BoundModel {
                        bound_type: BoundType::NoWrapper,
                        parameter_name: name,
                        alias: alias_alphabet()[n as int],
                        type_str,
                        info_for_next_type: false,
                        callback_modified: false,
                    },
                ),
                n_lifetimes: nlt,
                ok: true,
            }
        } else {
            AddParamResult { used, n_lifetimes: nlt, ok: false }
        }
    } else if has_param_named(used, name) {
        AddParamResult { used, n_lifetimes: nlt, ok: false }
    } else {
        match bt {
            BoundType::Into(Some(_), x) => {
                if nlt >= lifetime_count() {
                    AddParamResult { used, n_lifetimes: nlt, ok: false }
                } else {
                    let tag = lifetime_alphabet()[nlt as int];
                    match x {
                        Some(sub) => {
                            if n >= alias_count() {
                                AddParamResult { used, n_lifetimes: nlt + 1, ok: false }
                            } else {
                                let shadow = BoundModel {
                                    bound_type: with_lifetime_spec(*sub, tag),
                                    parameter_name: name,
                                    alias: alias_alphabet()[n as int],
                                    type_str,
                                    info_for_next_type: true,
                                    callback_modified: false,
                                };
                                if n + 1 >= alias_count() {
                                    AddParamResult {
                                        used: used.push(shadow),
                                        n_lifetimes: nlt + 1,
                                        ok: false,
                                    }
                                } else {
                                    let outer = BoundModel {
                                        bound_type: BoundType::Into(Some(tag), Some(sub)),
                                        parameter_name: name,
                                        alias: alias_alphabet()[n as int + 1],
                                        type_str: seq![alias_alphabet()[n as int]],
                                        info_for_next_type: false,
                                        callback_modified: false,
                                    };
                                    AddParamResult {
                                        used: used.push(shadow).push(outer),
                                        n_lifetimes: nlt + 1,
                                        ok: true,
                                    }
                                }
                            }
                        }
                        None => {
                            if n >= alias_count() {
                                AddParamResult { used, n_lifetimes: nlt + 1, ok: false }
                            } else {
                                AddParamResult {
                                    used: used.push(
                                        BoundModel {
                                            bound_type: BoundType::Into(Some(tag), None),
                                            parameter_name: name,
                                            alias: alias_alphabet()[n as int],
                                            type_str,
                                            info_for_next_type: false,
                                            callback_modified: false,
                                        },
                                    ),
                                    n_lifetimes: nlt + 1,
                                    ok: true,
                                }
                            }
                        }
                    }
                }
            }
            _ => {
                if n >= alias_count() {
                    AddParamResult { used, n_lifetimes: nlt, ok: false }
                } else {
                    AddParamResult {
                        used: used.push(
                            BoundModel {
                                bound_type: bt,
                                parameter_name: name,
                                alias: alias_alphabet()[n as int],
                                type_str,
                                info_for_next_type: false,
                                callback_modified: false,
                            },
                        ),
                        n_lifetimes: nlt,
                        ok: true,
                    }
                }
            }
        }
    }
}

impl Bounds {
    /// Whether some binding already carries this parameter name.
    fn contains_name(&self, name: &str) -> (r: bool)
        ensures
            r == has_param_named(self.used_model(), name@),
    {
        let ghost m = self.used_model();
        let mut i: usize = 0;
        while i < self.used.len()
            invariant
                0 <= i <= self.used@.len(),
                m == self.used_model(),
                m.len() == self.used@.len(),
                forall|k: int| 0 <= k < i ==> (#[trigger] m[k]).parameter_name != name@,
            decreases self.used@.len() - i,
        {
            if string_eq_str(&self.used[i].parameter_name, name) {
                proof {
                    assert(m[i as int].parameter_name == name@);
                }
                return true;
            }
            i += 1;
        }
        false
    }

    /// Register one resolved parameter.
    ///
    /// The precondition keeps out the one malformed scheme that can never
    /// arise from classification: a tagged conversion nesting a `NoWrapper`,
    /// reaching the shadow path.
    #[verifier::rlimit(50)]
    pub fn add_parameter(
        &mut self,
        name: &str,
        type_str: &str,
        bound_type: BoundType,
        is_async: bool,
    ) -> (r: bool)
        requires
            old(self).wf(),
            nested_nowrapper(bound_type) ==> (is_async && name@ == "callback"@)
                || has_param_named(old(self).used_model(), name@)
                || old(self).n_lifetimes() >= lifetime_count(),
        ensures
            final(self).wf(),
            ({
                let res = add_param_spec(
                    old(self).used_model(),
                    old(self).n_lifetimes(),
                    name@,
                    type_str@,
                    bound_type,
                    is_async,
                );
                &&& final(self).used_model() == res.used
                &&& final(self).n_lifetimes() == res.n_lifetimes
                &&& r == res.ok
            }),
    {
        let ghost used0 = self.used_model();
        if is_async && str_eq(name, "callback") {
            if self.unused.len() > 0 {
                let alias = self.unused.remove(0);
                let b = Bound {
                    bound_type: BoundType::NoWrapper,
                    parameter_name: name.to_owned(),
                    alias,
                    type_str: type_str.to_owned(),
                    info_for_next_type: false,
                    callback_modified: false,
                };
                self.used.push(b);
                proof {
                    assert(self.unused@ =~= alias_alphabet().skip(self.used@.len() as int));
                    assert(self.used_model() =~= used0.push(b@));
                }
                return true;
            }
            return false;
        }
        if self.contains_name(name) {
            return false;
        }
        let mut bt = bound_type;
        let sub: Option<(Option<Box<BoundType>>, char)> = match bt {
            BoundType::Into(Some(_), x) => {
                if self.unused_lifetimes.len() > 0 {
                    let lifetime = self.unused_lifetimes.remove(0);
                    self.lifetimes.push(lifetime);
                    let x2 = clone_nested(&x);
                    bt = BoundType::Into(Some(lifetime), x);
                    proof {
                        assert(self.unused_lifetimes@ =~= lifetime_alphabet().skip(
                            self.lifetimes@.len() as int,
                        ));
                        assert(self.lifetimes@ =~= lifetime_alphabet().take(
                            self.lifetimes@.len() as int,
                        ));
                    }
                    Some((x2, lifetime))
                } else {
                    return false;
                }
            }
            other => {
                bt = other;
                None
            }
        };
        let type_str2: String = match sub {
            Some((Some(sub_box), lifetime)) => {
                if self.unused.len() > 0 {
                    let alias = self.unused.remove(0);
                    let shadow = Bound {
                        bound_type: BoundType::with_lifetime(*sub_box, lifetime),
                        parameter_name: name.to_owned(),
                        alias,
                        type_str: type_str.to_owned(),
                        info_for_next_type: true,
                        callback_modified: false,
                    };
                    self.used.push(shadow);
                    proof {
                        assert(self.unused@ =~= alias_alphabet().skip(self.used@.len() as int));
                        assert(self.used_model() =~= used0.push(shadow@));
                    }
                    char_to_string(alias)
                } else {
                    return false;
                }
            }
            _ => type_str.to_owned(),
        };
        if self.unused.len() > 0 {
            let ghost used1 = self.used_model();
            let alias = self.unused.remove(0);
            let b = Bound {
                bound_type: bt,
                parameter_name: name.to_owned(),
                alias,
                type_str: type_str2,
                info_for_next_type: false,
                callback_modified: false,
            };
            self.used.push(b);
            proof {
                assert(self.unused@ =~= alias_alphabet().skip(self.used@.len() as int));
                assert(self.used_model() =~= used1.push(b@));
            }
            true
        } else {
            false
        }
    }
}

impl Default for Bounds {
    /// A fresh registry: full pools, no bindings, no tags.
    fn default() -> (r: Bounds)
        ensures
            r.wf(),
            r.used_model() == Seq::<BoundModel>::empty(),
            r.n_lifetimes() == 0,
    {
        let mut unused: Vec<char> = Vec::new();
        unused.push('P');
        unused.push('Q');
        unused.push('R');
        unused.push('S');
        unused.push('T');
        unused.push('U');
        unused.push('V');
        unused.push('W');
        unused.push('X');
        unused.push('Y');
        unused.push('Z');
        let mut unused_lifetimes: Vec<char> = Vec::new();
        unused_lifetimes.push('a');
        unused_lifetimes.push('b');
        unused_lifetimes.push('c');
        unused_lifetimes.push('d');
        unused_lifetimes.push('e');
        unused_lifetimes.push('f');
        unused_lifetimes.push('g');
        let r = Bounds { unused, used: Vec::new(), unused_lifetimes, lifetimes: Vec::new() };
        proof {
            assert(r.unused@ =~= alias_alphabet().skip(0));
            assert(r.unused_lifetimes@ =~= lifetime_alphabet().skip(0));
            assert(r.lifetimes@ =~= lifetime_alphabet().take(0));
            assert(r.used_model() =~= Seq::<BoundModel>::empty());
        }
        r
    }
}

} // verus!
verus! {

/// The classification table: what scheme a (type, nullability) pair demands,
/// or `None` when the parameter is passed with its concrete type.
pub open spec fn type_for_spec(lib: Library, tid: usize, nullable: Nullable) -> Option<
    BoundType,
> {
    match lib.spec_type(tid) {
        Type::Fundamental(Fundamental::Filename) => Some(BoundType::AsRef(None)),
        Type::Fundamental(Fundamental::OsString) => Some(BoundType::AsRef(None)),
        Type::Fundamental(Fundamental::Utf8) => if nullable.0 {
            Some(BoundType::Into(Some('_'), None))
        } else {
            None
        },
        Type::Class(c) => if !nullable.0 {
            if c.final_type {
                None
            } else {
                Some(BoundType::IsA(None))
            }
        } else {
            if c.final_type {
                Some(BoundType::Into(Some('_'), None))
            } else {
                Some(BoundType::Into(Some('_'), Some(Box::new(BoundType::IsA(None)))))
            }
        },
        Type::Interface => if !nullable.0 {
            Some(BoundType::IsA(None))
        } else {
            Some(BoundType::Into(Some('_'), Some(Box::new(BoundType::IsA(None)))))
        },
        Type::List => None,
        Type::SList => None,
        Type::CArray => None,
        Type::Fundamental(_) => if nullable.0 {
            Some(BoundType::Into(None, None))
        } else {
            None
        },
        Type::Function(_) => if nullable.0 {
            Some(BoundType::Into(None, None))
        } else {
            Some(BoundType::NoWrapper)
        },
        _ => if !nullable.0 {
            None
        } else {
            Some(BoundType::Into(Some('_'), None))
        },
    }
}

/// The dereference text a scheme puts in front of the forwarded argument:
/// reference-like and polymorphic parameters are adapted by reference, a
/// conversion delegates to its nested scheme, anything else needs nothing.
pub open spec fn to_glib_extra_spec(bt: BoundType) -> Seq<char>
    decreases bt,
{
    match bt {
        BoundType::AsRef(_) => ".as_ref()"@,
        BoundType::IsA(_) => ".as_ref()"@,
        BoundType::Into(_, Some(x)) => to_glib_extra_spec(*x),
        _ => Seq::<char>::empty(),
    }
}

impl Bounds {
    /// Classify one (type, nullability) pair; exactly one outcome per pair,
    /// no fallback beyond the table.
    pub fn type_for(env: &Env, type_id: usize, nullable: Nullable) -> (r: Option<BoundType>)
        requires
            env.library.type_in_range(type_id),
        ensures
            r == type_for_spec(env.library, type_id, nullable),
    {
        match env.type_(type_id) {
            Type::Fundamental(Fundamental::Filename) => Some(BoundType::AsRef(None)),
            Type::Fundamental(Fundamental::OsString) => Some(BoundType::AsRef(None)),
            Type::Fundamental(Fundamental::Utf8) => if nullable.0 {
                Some(BoundType::Into(Some('_'), None))
            } else {
                None
            },
            Type::Class(c) => if !nullable.0 {
                if c.final_type {
                    None
                } else {
                    Some(BoundType::IsA(None))
                }
            } else {
                if c.final_type {
                    Some(BoundType::Into(Some('_'), None))
                } else {
                    Some(BoundType::Into(Some('_'), Some(Box::new(BoundType::IsA(None)))))
                }
            },
            Type::Interface => if !nullable.0 {
                Some(BoundType::IsA(None))
            } else {
                Some(BoundType::Into(Some('_'), Some(Box::new(BoundType::IsA(None)))))
            },
            Type::List => None,
            Type::SList => None,
            Type::CArray => None,
            Type::Fundamental(_) => if nullable.0 {
                Some(BoundType::Into(None, None))
            } else {
                None
            },
            Type::Function(_) => if nullable.0 {
                Some(BoundType::Into(None, None))
            } else {
                Some(BoundType::NoWrapper)
            },
            _ => if !nullable.0 {
                None
            } else {
                Some(BoundType::Into(Some('_'), None))
            },
        }
    }

    /// The dereference text for a scheme.
    fn get_to_glib_extra(bound_type: &BoundType) -> (r: String)
        ensures
            r@ == to_glib_extra_spec(*bound_type),
        decreases *bound_type,
    {
        match bound_type {
            BoundType::AsRef(_) => ".as_ref()".to_owned(),
            BoundType::IsA(_) => ".as_ref()".to_owned(),
            BoundType::Into(_, Some(x)) => Bounds::get_to_glib_extra(&**x),
            _ => String::new(),
        }
    }
}

/// A binding the name lookup may answer with: neither a shadow binding nor
/// a split companion is addressable by parameter name.
pub open spec fn addressable(b: BoundModel) -> bool {
    !b.info_for_next_type && !b.callback_modified
}

/// The first addressable binding carrying this parameter name.
pub open spec fn alias_info_spec(used: Seq<BoundModel>, name: Seq<char>) -> Option<
    (char, BoundType),
>
    decreases used.len(),
{
    if used.len() == 0 {
        None
    } else if used[0].parameter_name == name && addressable(used[0]) {
        Some((used[0].alias, used[0].bound_type))
    } else {
        alias_info_spec(used.drop_first(), name)
    }
}

proof fn lemma_alias_info_skip(used: Seq<BoundModel>, name: Seq<char>, j: int)
    requires
        0 <= j <= used.len(),
        forall|k: int|
            0 <= k < j ==> !((#[trigger] used[k]).parameter_name == name
                && addressable(used[k])),
    ensures
        alias_info_spec(used, name) == alias_info_spec(used.skip(j), name),
    decreases j,
{
    if j > 0 {
        lemma_alias_info_skip(used, name, j - 1);
        assert(used.skip(j - 1)[0] == used[j - 1]);
        assert(used.skip(j - 1).drop_first() =~= used.skip(j));
    } else {
        assert(used.skip(0) =~= used);
    }
}

/// The position of an alias in the alias alphabet, by its place in the
/// contiguous run of symbols the alphabet is drawn from.
pub open spec fn alias_position(alias: char) -> int {
    alias as int - ('P' as int)
}

/// What the alias-predecessor lookup returns: defined only past the first
/// alias of the alphabet, and only when the binding holding the preceding
/// alias is a shadow binding.
pub open spec fn base_alias_spec(used: Seq<BoundModel>, alias: char) -> Option<char> {
    let j = alias_position(alias);
    if 1 <= j < alias_count() && j - 1 < used.len() && used[j - 1].info_for_next_type {
        Some(alias_alphabet()[j - 1])
    } else {
        None
    }
}

/// The alias directly before this one in the alphabet.
fn prev_alias(alias: char) -> (r: Option<char>)
    ensures
        match r {
            Some(p) => 1 <= alias_position(alias) < alias_count() && p == alias_alphabet()[
                alias_position(alias) - 1
            ],
            None => !(1 <= alias_position(alias) < alias_count()),
        },
{
    match alias {
        'Q' => Some('P'),
        'R' => Some('Q'),
        'S' => Some('R'),
        'T' => Some('S'),
        'U' => Some('T'),
        'V' => Some('U'),
        'W' => Some('V'),
        'X' => Some('W'),
        'Y' => Some('X'),
        'Z' => Some('Y'),
        _ => None,
    }
}

impl Bounds {
    /// The (alias, scheme) pair registered for a parameter name, if an
    /// addressable binding carries it; shadow and split-companion entries
    /// are passed over.
    pub fn get_parameter_alias_info(&self, name: &str) -> (r: Option<(char, BoundType)>)
        ensures
            r == alias_info_spec(self.used_model(), name@),
    {
        let ghost m = self.used_model();
        let mut i: usize = 0;
        while i < self.used.len()
            invariant
                0 <= i <= self.used@.len(),
                m == self.used_model(),
                m.len() == self.used@.len(),
                forall|k: int|
                    0 <= k < i ==> !((#[trigger] m[k]).parameter_name == name@
                        && addressable(m[k])),
            decreases self.used@.len() - i,
        {
            let b = &self.used[i];
            if !b.info_for_next_type && !b.callback_modified && string_eq_str(
                &b.parameter_name,
                name,
            ) {
                proof {
                    lemma_alias_info_skip(m, name@, i as int);
                    assert(m.skip(i as int)[0] == m[i as int]);
                }
                return Some((b.alias, b.bound_type.clone()));
            }
            i += 1;
        }
        proof {
            lemma_alias_info_skip(m, name@, m.len() as int);
        }
        None
    }

    /// The alias paired with this one during rendering: the directly
    /// preceding alias, if the binding holding it is a shadow binding.
    pub fn get_base_alias(&self, alias: char) -> (r: Option<char>)
        requires
            self.wf(),
        ensures
            r == base_alias_spec(self.used_model(), alias),
    {
        let prev = match prev_alias(alias) {
            Some(p) => p,
            None => {
                return None;
            },
        };
        let ghost m = self.used_model();
        let ghost j = alias_position(alias);
        let mut i: usize = 0;
        while i < self.used.len()
            invariant
                self.wf(),
                0 <= i <= self.used@.len(),
                m == self.used_model(),
                m.len() == self.used@.len(),
                j == alias_position(alias),
                1 <= j < alias_count(),
                prev == alias_alphabet()[j - 1],
                forall|k: int| 0 <= k < i ==> (#[trigger] m[k]).alias != prev,
            decreases self.used@.len() - i,
        {
            let b = &self.used[i];
            if b.alias == prev {
                proof {
                    assert(m[i as int].alias == alias_alphabet()[i as int]);
                    assert(alias_alphabet_injective());
                    assert(i as int == j - 1);
                }
                if b.info_for_next_type {
                    return Some(prev);
                } else {
                    return None;
                }
            }
            i += 1;
        }
        proof {
            if j - 1 < m.len() {
                assert(m[j - 1].alias == alias_alphabet()[j - 1]);
                assert(false);
            }
        }
        None
    }
}

/// No two positions of the alias alphabet hold the same symbol.
pub open spec fn alias_alphabet_injective() -> bool {
    forall|a: int, b: int|
        0 <= a < b < alias_count() ==> alias_alphabet()[a] != alias_alphabet()[b]
}

/// The views of a list of owned strings.
pub open spec fn str_views(v: Seq<String>) -> Seq<Seq<char>> {
    Seq::new(v.len(), |i: int| v[i]@)
}

/// The pieces joined with a comma-space separator.
pub open spec fn join_comma(parts: Seq<Seq<char>>) -> Seq<char>
    decreases parts.len(),
{
    if parts.len() == 0 {
        Seq::<char>::empty()
    } else if parts.len() == 1 {
        parts[0]
    } else {
        parts[0] + ", "@ + join_comma(parts.drop_first())
    }
}

proof fn lemma_join_comma_push(parts: Seq<Seq<char>>, x: Seq<char>)
    ensures
        join_comma(parts.push(x)) == if parts.len() == 0 {
            x
        } else {
            join_comma(parts) + ", "@ + x
        },
    decreases parts.len(),
{
    if parts.len() == 0 {
        assert(parts.push(x)[0] == x);
        assert(parts.push(x).len() == 1);
    } else if parts.len() == 1 {
        let p = parts.push(x);
        assert(p.len() == 2);
        assert(p[0] == parts[0]);
        assert(p.drop_first() =~= seq![x]);
        assert(join_comma(p.drop_first()) == x);
    } else {
        let p = parts.push(x);
        assert(p[0] == parts[0]);
        assert(p.drop_first() =~= parts.drop_first().push(x));
        lemma_join_comma_push(parts.drop_first(), x);
        assert(join_comma(parts.drop_first().push(x)) == join_comma(parts.drop_first()) + ", "@
            + x);
        assert(join_comma(p) == parts[0] + ", "@ + (join_comma(parts.drop_first()) + ", "@ + x));
        assert(parts[0] + ", "@ + (join_comma(parts.drop_first()) + ", "@ + x) =~= (parts[0]
            + ", "@ + join_comma(parts.drop_first())) + ", "@ + x);
    }
}

/// How a collected list of result types renders: a single entry as itself,
/// any other count as an ordered tuple.
pub open spec fn format_out_spec(parts: Seq<Seq<char>>) -> Seq<char> {
    if parts.len() == 1 {
        parts[0]
    } else {
        "("@ + join_comma(parts) + ")"@
    }
}

/// Render a collected list of result types: one entry stands as itself,
/// otherwise the entries form an ordered tuple.
pub fn format_out_parameters(parameters: &Vec<String>) -> (r: String)
    ensures
        r@ == format_out_spec(str_views(parameters@)),
{
    let ghost parts = str_views(parameters@);
    if parameters.len() == 1 {
        return parameters[0].clone();
    }
    let mut acc: String = "(".to_owned();
    let mut i: usize = 0;
    while i < parameters.len()
        invariant
            0 <= i <= parameters@.len(),
            parts == str_views(parameters@),
            parts.len() == parameters@.len(),
            acc@ == "("@ + join_comma(parts.take(i as int)),
        decreases parameters@.len() - i,
    {
        if i > 0 {
            acc.append(", ");
        }
        acc.append(parameters[i].as_str());
        proof {
            assert(parts.take(i as int).push(parts[i as int]) =~= parts.take(i as int + 1));
            lemma_join_comma_push(parts.take(i as int), parts[i as int]);
            if i == 0 {
                assert(acc@ =~= "("@ + join_comma(parts.take(1)));
            } else {
                assert(acc@ =~= "("@ + (join_comma(parts.take(i as int)) + ", "@ + parts[
                    i as int
                ]));
                assert("("@ + (join_comma(parts.take(i as int)) + ", "@ + parts[i as int]) =~= "("@
                    + join_comma(parts.take(i as int + 1)));
            }
        }
        i += 1;
    }
    proof {
        assert(parts.take(parts.len() as int) =~= parts);
    }
    acc.append(")");
    acc
}

/// Whether this parameter takes part in the collected completion results:
/// an out parameter not named `error` and not flagged structurally
/// redundant.
pub open spec fn out_param_selected(params: Seq<Param>, i: int) -> bool {
    &&& params[i].direction is Out
    &&& params[i].name@ != "error"@
    &&& index_to_ignore_spec(params) != Some(i as usize)
}

/// Every selected parameter of a completion function has a rendered text.
pub open spec fn out_params_renderable(lib: Library, f: Function) -> bool {
    forall|i: int|
        0 <= i < f.parameters@.len() && out_param_selected(f.parameters@, i)
            ==> lib.spec_rust_text((#[trigger] f.parameters@[i]).typ) is Some
}

/// The rendered texts of the selected out parameters, in order, from
/// position `i` on.
pub open spec fn out_params_spec(lib: Library, f: Function, i: int) -> Seq<Seq<char>>
    decreases f.parameters@.len() - i,
{
    if i < 0 || i >= f.parameters@.len() {
        Seq::<Seq<char>>::empty()
    } else if out_param_selected(f.parameters@, i) {
        seq![lib.spec_rust_text(f.parameters@[i].typ)->0] + out_params_spec(lib, f, i + 1)
    } else {
        out_params_spec(lib, f, i + 1)
    }
}

/// Collect the rendered texts of a completion function's meaningful out
/// parameters, skipping the structurally redundant one and the `error`
/// slot.
pub fn find_out_parameters(env: &Env, function: &Function) -> (r: Vec<String>)
    requires
        env.library.fn_wf(*function),
        out_params_renderable(env.library, *function),
    ensures
        str_views(r@) == out_params_spec(env.library, *function, 0),
{
    let ghost total = out_params_spec(env.library, *function, 0);
    let index_to_ignore = find_index_to_ignore(&function.parameters);
    let mut out: Vec<String> = Vec::new();
    let mut i: usize = 0;
    while i < function.parameters.len()
        invariant
            0 <= i <= function.parameters@.len(),
            env.library.fn_wf(*function),
            out_params_renderable(env.library, *function),
            index_to_ignore == index_to_ignore_spec(function.parameters@),
            total == out_params_spec(env.library, *function, 0),
            str_views(out@) + out_params_spec(env.library, *function, i as int) == total,
        decreases function.parameters@.len() - i,
    {
        let p = &function.parameters[i];
        let is_out = match p.direction {
            ParameterDirection::Out => true,
            _ => false,
        };
        let ignored = match index_to_ignore {
            Some(idx) => idx == i,
            None => false,
        };
        let selected = is_out && !ignored && !string_eq_str(&p.name, "error");
        if selected {
            let text = match rust_type(env, p.typ) {
                Some(s) => s.clone(),
                None => {
                    proof {
                        assert(out_param_selected(function.parameters@, i as int));
                        assert(false);
                    }
                    String::new()
                },
            };
            let ghost before = str_views(out@);
            out.push(text);
            proof {
                assert(str_views(out@) =~= before.push(text@));
                assert(out_param_selected(function.parameters@, i as int));
                assert(before.push(text@) + out_params_spec(env.library, *function, i as int + 1)
                    =~= before + out_params_spec(env.library, *function, i as int));
            }
        } else {
            proof {
                assert(!out_param_selected(function.parameters@, i as int));
            }
        }
        i += 1;
    }
    proof {
        assert(out_params_spec(env.library, *function, function.parameters@.len() as int)
            =~= Seq::<Seq<char>>::empty());
        assert(str_views(out@) + Seq::<Seq<char>>::empty() =~= str_views(out@));
    }
    out
}

/// The rendered text of a type, or the empty text when the rendering side
/// has none for it.
pub open spec fn text_or_empty(lib: Library, tid: usize) -> Seq<char> {
    match lib.spec_rust_text(tid) {
        Some(s) => s,
        None => Seq::<char>::empty(),
    }
}

/// The first binding whose rendered type is this text.
pub open spec fn first_text_match(used: Seq<BoundModel>, text: Seq<char>) -> Option<int>
    decreases used.len(),
{
    if used.len() == 0 {
        None
    } else if used[0].type_str == text {
        Some(0)
    } else {
        match first_text_match(used.drop_first(), text) {
            Some(i) => Some(i + 1),
            None => None,
        }
    }
}

proof fn lemma_first_text_match_bounds(used: Seq<BoundModel>, text: Seq<char>)
    ensures
        match first_text_match(used, text) {
            Some(i) => 0 <= i < used.len() && used[i].type_str == text,
            None => forall|k: int| 0 <= k < used.len() ==> (#[trigger] used[k]).type_str != text,
        },
    decreases used.len(),
{
    if used.len() > 0 && used[0].type_str != text {
        lemma_first_text_match_bounds(used.drop_first(), text);
        assert(forall|k: int|
            1 <= k < used.len() ==> (#[trigger] used[k]) == used.drop_first()[k - 1]);
    }
}

proof fn lemma_first_text_match_skip(used: Seq<BoundModel>, text: Seq<char>, j: int)
    requires
        0 <= j <= used.len(),
        forall|k: int| 0 <= k < j ==> (#[trigger] used[k]).type_str != text,
    ensures
        first_text_match(used, text) == match first_text_match(used.skip(j), text) {
            Some(i) => Some(i + j),
            None => None::<int>,
        },
    decreases j,
{
    if j > 0 {
        lemma_first_text_match_skip(used, text, j - 1);
        assert(used.skip(j - 1)[0] == used[j - 1]);
        assert(used.skip(j - 1).drop_first() =~= used.skip(j));
    } else {
        assert(used.skip(0) =~= used);
    }
}

/// What one sub-parameter of a nested function signature contributes: the
/// binding list afterwards, and the position it occupies, if any.
pub struct ExtrasResult {
    pub used: Seq<BoundModel>,
    pub positions: Seq<int>,
    /// The alias pool ran out at the point a fresh binding was owed.
    pub overflow: bool,
}

/// One step of the sub-parameter walk. Only a sub-parameter that resolves
/// to the plain polymorphic scheme takes part: it reuses, by position, a
/// binding that already renders to the identical type text, or gets a
/// fresh visible binding. Any other sub-parameter contributes nothing.
pub open spec fn extras_step(used: Seq<BoundModel>, lib: Library, p: Param) -> ExtrasResult {
    let text = text_or_empty(lib, p.typ);
    if type_for_spec(lib, p.typ, p.nullable) == Some(BoundType::IsA(None)) {
        match first_text_match(used, text) {
            Some(pos) => ExtrasResult { used: used, positions: seq![pos], overflow: false },
            None => {
                if used.len() < alias_count() {
                    ExtrasResult {
                        used: used.push(
                            BoundModel {
                                bound_type: BoundType::IsA(None),
                                parameter_name: p.name@,
                                alias: alias_alphabet()[used.len() as int],
                                type_str: text,
                                info_for_next_type: false,
                                callback_modified: false,
                            },
                        ),
                        positions: seq![used.len() as int],
                        overflow: false,
                    }
                } else {
                    ExtrasResult { used: used, positions: Seq::<int>::empty(), overflow: true }
                }
            },
        }
    } else {
        ExtrasResult { used: used, positions: Seq::<int>::empty(), overflow: false }
    }
}

/// The whole sub-parameter walk from position `i` on.
pub open spec fn extras_fold(
    used: Seq<BoundModel>,
    lib: Library,
    params: Seq<Param>,
    i: int,
) -> ExtrasResult
    decreases params.len() - i,
{
    if i < 0 || i >= params.len() {
        ExtrasResult { used: used, positions: Seq::<int>::empty(), overflow: false }
    } else {
        let s = extras_step(used, lib, params[i]);
        let rest = extras_fold(s.used, lib, params, i + 1);
        ExtrasResult {
            used: rest.used,
            positions: s.positions + rest.positions,
            overflow: s.overflow || rest.overflow,
        }
    }
}

proof fn lemma_extras_fold_grows(used: Seq<BoundModel>, lib: Library, params: Seq<Param>, i: int)
    ensures
        extras_fold(used, lib, params, i).used.len() >= used.len(),
    decreases params.len() - i,
{
    if 0 <= i < params.len() {
        let s = extras_step(used, lib, params[i]);
        assert(s.used.len() >= used.len());
        lemma_extras_fold_grows(s.used, lib, params, i + 1);
        assert(extras_fold(used, lib, params, i).used == extras_fold(s.used, lib, params, i + 1).used);
    }
}

/// The extra-bound text one reused or created binding adds to a rendered
/// callback type.
pub open spec fn bound_item_text(b: BoundModel) -> Seq<char> {
    ", "@ + seq![b.alias] + ": IsA<"@ + b.type_str + ">"@
}

/// The extra-bound texts of the deduplicated position list, in order.
pub open spec fn extras_text(used: Seq<BoundModel>, positions: Seq<int>) -> Seq<char>
    decreases positions.len(),
{
    if positions.len() == 0 {
        Seq::<char>::empty()
    } else {
        bound_item_text(used[positions[0]]) + extras_text(used, positions.drop_first())
    }
}

proof fn lemma_extras_text_push(used: Seq<BoundModel>, positions: Seq<int>, p: int)
    ensures
        extras_text(used, positions.push(p)) == extras_text(used, positions) + bound_item_text(
            used[p],
        ),
    decreases positions.len(),
{
    if positions.len() == 0 {
        assert(positions.push(p)[0] == p);
        assert(positions.push(p).drop_first() =~= Seq::<int>::empty());
        assert(extras_text(used, Seq::<int>::empty()) == Seq::<char>::empty());
        assert(extras_text(used, positions.push(p)) =~= bound_item_text(used[p]));
        assert(extras_text(used, positions) + bound_item_text(used[p]) =~= bound_item_text(
            used[p],
        ));
    } else {
        assert(positions.push(p)[0] == positions[0]);
        assert(positions.push(p).drop_first() =~= positions.drop_first().push(p));
        lemma_extras_text_push(used, positions.drop_first(), p);
        assert(bound_item_text(used[positions[0]]) + (extras_text(used, positions.drop_first())
            + bound_item_text(used[p])) =~= (bound_item_text(used[positions[0]]) + extras_text(
            used,
            positions.drop_first(),
        )) + bound_item_text(used[p]));
    }
}

/// The marker a concurrency mode appends to a rendered callback type.
pub open spec fn concurrency_suffix(c: Concurrency) -> Seq<char> {
    match c {
        Concurrency::NotConcurrent => Seq::<char>::empty(),
        Concurrency::Send => " + Send"@,
        Concurrency::SendSync => " + Send + Sync"@,
    }
}

/// The rendered type of a synchronous callback parameter: the nested
/// signature's own text, the deduplicated extra bounds, and the concurrency
/// marker.
pub open spec fn callback_text_spec(
    used: Seq<BoundModel>,
    base: Seq<char>,
    positions: Seq<int>,
    conc: Concurrency,
) -> Seq<char> {
    base + extras_text(used, positions) + concurrency_suffix(conc)
}

/// The integer values of a list of positions.
pub open spec fn usize_views(v: Seq<usize>) -> Seq<int> {
    Seq::new(v.len(), |i: int| v[i] as int)
}

/// An out parameter literally named `error`.
pub open spec fn is_error_out(p: Param) -> bool {
    p.direction is Out && p.name@ == "error"@
}

/// Exactly one out parameter is named `error`.
pub open spec fn exactly_one_error(params: Seq<Param>) -> bool {
    exists|i: int|
        0 <= i < params.len() && is_error_out(#[trigger] params[i]) && (forall|k: int|
            0 <= k < params.len() && is_error_out(#[trigger] params[k]) ==> k == i)
}

/// The error type a completion function delivers: defined only when exactly
/// one out parameter is named `error` and that parameter is of record type;
/// the record's name is the error type.
pub open spec fn find_error_spec(lib: Library, f: Function) -> Option<Seq<char>> {
    if exactly_one_error(f.parameters@) {
        let i = choose|i: int|
            0 <= i < f.parameters@.len() && is_error_out(#[trigger] f.parameters@[i]) && (
            forall|k: int|
                0 <= k < f.parameters@.len() && is_error_out(#[trigger] f.parameters@[k]) ==> k
                    == i);
        match lib.spec_type(f.parameters@[i].typ) {
            Type::Record(rec) => Some(rec.name@),
            _ => None,
        }
    } else {
        None
    }
}

/// Locate the error type of a completion function. `None` signals the fatal
/// disagreement between the naming convention and the library model: no out
/// parameter named `error`, more than one, or one that is not a record.
#[verifier::rlimit(50)]
pub fn find_error_type(env: &Env, function: &Function) -> (r: Option<String>)
    requires
        env.library.fn_wf(*function),
    ensures
        match r {
            Some(s) => find_error_spec(env.library, *function) == Some(s@),
            None => find_error_spec(env.library, *function) is None,
        },
{
    let ghost params = function.parameters@;
    let mut found: Option<usize> = None;
    let mut i: usize = 0;
    while i < function.parameters.len()
        invariant
            0 <= i <= params.len(),
            function.parameters@ == params,
            found matches Some(j) ==> 0 <= j < i && is_error_out(params[j as int]),
            forall|k: int|
                0 <= k < i && is_error_out(#[trigger] params[k]) ==> found == Some(k as usize),
        decreases params.len() - i,
    {
        let p = &function.parameters[i];
        let is_out = match p.direction {
            ParameterDirection::Out => true,
            _ => false,
        };
        if is_out && string_eq_str(&p.name, "error") {
            proof {
                assert(is_error_out(params[i as int]));
            }
            match found {
                Some(j) => {
                    // a second error slot: the convention is broken
                    proof {
                        if exactly_one_error(params) {
                            let w = choose|w: int|
                                0 <= w < params.len() && is_error_out(#[trigger] params[w]) && (
                                forall|k: int|
                                    0 <= k < params.len() && is_error_out(#[trigger] params[k])
                                        ==> k == w);
                            assert(j as int == w);
                            assert(i as int == w);
                            assert(false);
                        }
                    }
                    return None;
                },
                None => {
                    found = Some(i);
                },
            }
        }
        i += 1;
    }
    match found {
        Some(j) => {
            proof {
                assert(0 <= (j as int) && (j as int) < params.len() && is_error_out(
                    params[j as int],
                ) && (
                forall|k: int|
                    0 <= k < params.len() && is_error_out(#[trigger] params[k]) ==> k
                        == j as int));
                assert(exactly_one_error(params));
                let w = choose|w: int|
                    0 <= w < params.len() && is_error_out(#[trigger] params[w]) && (forall|
                        k: int,
                    |
                        0 <= k < params.len() && is_error_out(#[trigger] params[k]) ==> k == w);
                assert(w == j as int);
            }
            match env.type_(function.parameters[j].typ) {
                Type::Record(rec) => Some(rec.name.clone()),
                _ => None,
            }
        },
        None => {
            proof {
                if exactly_one_error(params) {
                    let w = choose|w: int|
                        0 <= w < params.len() && is_error_out(#[trigger] params[w]) && (forall|
                            k: int,
                        |
                            0 <= k < params.len() && is_error_out(#[trigger] params[k]) ==> k
                                == w);
                    assert(found == Some(w as usize));
                    assert(false);
                }
            }
            None
        },
    }
}

} // verus!

verus! {

/// The mathematical value of a synthesized callback descriptor.
pub struct CallbackModel {
    pub callback_type: Seq<char>,
    pub success_parameters: Seq<char>,
    pub error_parameters: Seq<char>,
    pub bound_name: char,
}

/// The outcome of resolving one parameter: the registry afterwards, the
/// dereference text, the callback descriptor, and whether the resolution is
/// fatal for the generated function.
pub struct AfpResult {
    pub used: Seq<BoundModel>,
    pub n_lifetimes: nat,
    pub ret: Option<Seq<char>>,
    pub cb: Option<CallbackModel>,
    pub fatal: bool,
}

/// An outcome that changes nothing and resolves nothing.
pub open spec fn afp_unchanged(used0: Seq<BoundModel>, nlt0: nat) -> AfpResult {
    AfpResult { used: used0, n_lifetimes: nlt0, ret: None, cb: None, fatal: false }
}

/// A fatal outcome: the function cannot be generated.
pub open spec fn afp_fatal(used0: Seq<BoundModel>, nlt0: nat) -> AfpResult {
    AfpResult { used: used0, n_lifetimes: nlt0, ret: None, cb: None, fatal: true }
}

/// Resolution of the asynchronous completion slot.
///
/// The completion counterpart is located by the fixed name-suffix
/// transformation. When it exists, its meaningful out parameters (plus its
/// own return value, when meaningful) become the success type, the single
/// record-typed `error` out parameter names the error type, and the
/// rendered handler type consumes a result of the two; the descriptor
/// records the alias the handler binding is about to receive. When it does
/// not exist, classification proceeds with no synthesis. Fatal outcomes:
/// a malformed `error` slot, an unrenderable collected type, or an
/// exhausted alias pool.
pub open spec fn afp_async_callback(
    used0: Seq<BoundModel>,
    nlt0: nat,
    lib: Library,
    func: Function,
    par: CParameter,
    bt: BoundType,
) -> AfpResult {
    if func.c_identifier is None {
        afp_fatal(used0, nlt0)
    } else {
        let finish_name = finish_name_spec(func.c_identifier->0@);
        match find_fn_spec(lib.functions@, finish_name) {
            Some(ff) => {
                if !out_params_renderable(lib, ff) {
                    afp_fatal(used0, nlt0)
                } else if use_return_spec(lib, ff.ret.typ) && lib.spec_rust_text(ff.ret.typ)
                    is None {
                    afp_fatal(used0, nlt0)
                } else {
                    let outs0 = out_params_spec(lib, ff, 0);
                    let outs = if use_return_spec(lib, ff.ret.typ) {
                        seq![lib.spec_rust_text(ff.ret.typ)->0] + outs0
                    } else {
                        outs0
                    };
                    let params_text = format_out_spec(outs);
                    match find_error_spec(lib, ff) {
                        None => afp_fatal(used0, nlt0),
                        Some(err) => {
                            let cbt = "FnOnce(Result<"@ + params_text + ", "@ + err
                                + ">) + Send + 'static"@;
                            if used0.len() >= alias_count() {
                                afp_fatal(used0, nlt0)
                            } else {
                                let cb = CallbackModel {
                                    callback_type: cbt,
                                    success_parameters: params_text,
                                    error_parameters: err,
                                    bound_name: alias_alphabet()[used0.len() as int],
                                };
                                let add = add_param_spec(used0, nlt0, par.name@, cbt, bt, true);
                                if !add.ok {
                                    afp_fatal(used0, nlt0)
                                } else {
                                    AfpResult {
                                        used: add.used,
                                        n_lifetimes: add.n_lifetimes,
                                        ret: Some(to_glib_extra_spec(bt)),
                                        cb: Some(cb),
                                        fatal: false,
                                    }
                                }
                            }
                        },
                    }
                }
            },
            None => {
                let add = add_param_spec(
                    used0,
                    nlt0,
                    par.name@,
                    text_or_empty(lib, par.typ),
                    bt,
                    true,
                );
                if !add.ok {
                    afp_fatal(used0, nlt0)
                } else {
                    AfpResult {
                        used: add.used,
                        n_lifetimes: add.n_lifetimes,
                        ret: Some(to_glib_extra_spec(bt)),
                        cb: None,
                        fatal: false,
                    }
                }
            },
        }
    }
}

/// The split-companion fix-up: the just-registered conversion binding is
/// demoted in place to a raw `NoWrapper` generic with its parameter name
/// cleared, and a companion binding with a fresh alias is appended whose
/// rendered type is the demoted binding's alias.
pub open spec fn split_fixup_spec(used: Seq<BoundModel>) -> Seq<BoundModel> {
    let li = used.len() - 1;
    let last = used[li];
    used.update(
        li,
        BoundModel {
            bound_type: BoundType::NoWrapper,
            parameter_name: Seq::<char>::empty(),
            alias: last.alias,
            type_str: last.type_str,
            info_for_next_type: last.info_for_next_type,
            callback_modified: last.callback_modified,
        },
    ).push(
        BoundModel {
            bound_type: last.bound_type,
            parameter_name: last.parameter_name,
            alias: alias_alphabet()[used.len() as int],
            type_str: seq![last.alias],
            info_for_next_type: last.info_for_next_type,
            callback_modified: true,
        },
    )
}

/// Resolution of a synchronous function-pointer slot; the plain
/// teardown-notification convention never reaches it and is registered
/// plainly instead.
///
/// The slot first walks the nested signature's sub-parameters for extra
/// polymorphic bounds (reusing a binding that renders to the identical
/// text), renders the callback type with them, registers the binding, and,
/// when the chosen scheme was a conversion, splits it in place into a raw
/// generic and a companion conversion generic.
pub open spec fn afp_fnptr(
    used0: Seq<BoundModel>,
    nlt0: nat,
    lib: Library,
    par: CParameter,
    bt: BoundType,
    is_async: bool,
    conc: Concurrency,
) -> AfpResult {
    let base = text_or_empty(lib, par.typ);
    let fparams = match lib.spec_type(par.typ) {
        Type::Function(f) => f.parameters@,
        _ => Seq::<Param>::empty(),
    };
    let ex = extras_fold(used0, lib, fparams, 0);
    if ex.overflow {
        afp_fatal(used0, nlt0)
    } else {
        let cbt = callback_text_spec(ex.used, base, ex.positions, conc);
        if ex.used.len() >= alias_count() {
            afp_fatal(used0, nlt0)
        } else {
            let cb = CallbackModel {
                callback_type: cbt,
                success_parameters: Seq::<char>::empty(),
                error_parameters: Seq::<char>::empty(),
                bound_name: alias_alphabet()[ex.used.len() as int],
            };
            let add = add_param_spec(ex.used, nlt0, par.name@, cbt, bt, is_async);
            if !add.ok {
                afp_fatal(used0, nlt0)
            } else {
                let last = add.used[add.used.len() - 1];
                if last.bound_type matches BoundType::Into(_, _) {
                    if add.used.len() >= alias_count() {
                        afp_fatal(used0, nlt0)
                    } else {
                        AfpResult {
                            used: split_fixup_spec(add.used),
                            n_lifetimes: add.n_lifetimes,
                            ret: Some(to_glib_extra_spec(bt)),
                            cb: Some(cb),
                            fatal: false,
                        }
                    }
                } else {
                    AfpResult {
                        used: add.used,
                        n_lifetimes: add.n_lifetimes,
                        ret: Some(to_glib_extra_spec(bt)),
                        cb: Some(cb),
                        fatal: false,
                    }
                }
            }
        }
    }
}

/// What `Bounds::add_for_parameter` does, as a function of the registry and
/// the library model.
///
/// The conventional ignorable asynchronous user-data slot and an
/// unrenderable parameter type resolve to nothing. An instance parameter
/// only yields its dereference text. An out parameter never yields a
/// binding. Any other parameter is classified and registered, delegating to
/// the completion or function-pointer synthesis when the slot asks for it;
/// the plain teardown-notification convention never triggers the
/// function-pointer slot and is registered plainly, with no descriptor.
pub open spec fn afp_spec(
    used0: Seq<BoundModel>,
    nlt0: nat,
    lib: Library,
    func: Function,
    par: CParameter,
    is_async: bool,
    conc: Concurrency,
) -> AfpResult {
    if is_async && par.name@ == "user_data"@ {
        afp_unchanged(used0, nlt0)
    } else if lib.spec_rust_text(par.typ) is None {
        afp_unchanged(used0, nlt0)
    } else if !par.instance_parameter && !(par.direction is Out) {
        match type_for_spec(lib, par.typ, par.nullable) {
            None => afp_unchanged(used0, nlt0),
            Some(bt) => {
                if is_async && par.name@ == "callback"@ {
                    afp_async_callback(used0, nlt0, lib, func, par, bt)
                } else if par.c_type@ != "GDestroyNotify"@ && lib.spec_type(par.typ) is Function {
                    afp_fnptr(used0, nlt0, lib, par, bt, is_async, conc)
                } else {
                    let add = add_param_spec(
                        used0,
                        nlt0,
                        par.name@,
                        lib.spec_rust_text(par.typ)->0,
                        bt,
                        is_async,
                    );
                    if !add.ok {
                        afp_fatal(used0, nlt0)
                    } else {
                        AfpResult {
                            used: add.used,
                            n_lifetimes: add.n_lifetimes,
                            ret: Some(to_glib_extra_spec(bt)),
                            cb: None,
                            fatal: false,
                        }
                    }
                }
            },
        }
    } else if par.instance_parameter {
        AfpResult {
            used: used0,
            n_lifetimes: nlt0,
            ret: match type_for_spec(lib, par.typ, par.nullable) {
                Some(bt) => Some(to_glib_extra_spec(bt)),
                None => None,
            },
            cb: None,
            fatal: false,
        }
    } else {
        afp_unchanged(used0, nlt0)
    }
}

/// No scheme the classification table produces nests a `NoWrapper` under a
/// tagged conversion.
proof fn lemma_type_for_not_nested_nowrapper(lib: Library, tid: usize, nullable: Nullable)
    ensures
        match type_for_spec(lib, tid, nullable) {
            Some(bt) => !nested_nowrapper(bt),
            None => true,
        },
{
}

} // verus!


verus! {

impl Bounds {
    /// The first binding whose rendered type equals this text, by position.
    fn first_text_match_exec(&self, text: &str) -> (r: Option<usize>)
        ensures
            match r {
                Some(i) => first_text_match(self.used_model(), text@) == Some(i as int),
                None => first_text_match(self.used_model(), text@) is None,
            },
    {
        let ghost m = self.used_model();
        let mut i: usize = 0;
        while i < self.used.len()
            invariant
                0 <= i <= self.used@.len(),
                m == self.used_model(),
                m.len() == self.used@.len(),
                forall|k: int| 0 <= k < i ==> (#[trigger] m[k]).type_str != text@,
            decreases self.used@.len() - i,
        {
            if string_eq_str(&self.used[i].type_str, text) {
                proof {
                    lemma_first_text_match_skip(m, text@, i as int);
                    assert(m.skip(i as int)[0] == m[i as int]);
                    assert(first_text_match(m.skip(i as int), text@) == Some(0int));
                }
                return Some(i);
            }
            i += 1;
        }
        proof {
            lemma_first_text_match_skip(m, text@, m.len() as int);
        }
        None
    }

    /// Render the type of a synchronous callback parameter: the nested
    /// signature's own text, each extra bound's alias and type, and the
    /// concurrency marker.
    fn render_callback_type(
        &self,
        base: &str,
        positions: &Vec<usize>,
        concurrency: Concurrency,
    ) -> (r: String)
        requires
            forall|k: int|
                0 <= k < positions@.len() ==> (#[trigger] positions@[k]) < self.used@.len(),
        ensures
            r@ == callback_text_spec(
                self.used_model(),
                base@,
                usize_views(positions@),
                concurrency,
            ),
    {
        let ghost m = self.used_model();
        let ghost ps = usize_views(positions@);
        let mut acc: String = base.to_owned();
        let mut k: usize = 0;
        while k < positions.len()
            invariant
                0 <= k <= positions@.len(),
                m == self.used_model(),
                m.len() == self.used@.len(),
                ps == usize_views(positions@),
                ps.len() == positions@.len(),
                forall|j: int|
                    0 <= j < positions@.len() ==> (#[trigger] positions@[j]) < self.used@.len(),
                acc@ == base@ + extras_text(m, ps.take(k as int)),
            decreases positions@.len() - k,
        {
            let b = &self.used[positions[k]];
            acc.append(", ");
            let alias_str = char_to_string(b.alias);
            acc.append(alias_str.as_str());
            acc.append(": IsA<");
            acc.append(b.type_str.as_str());
            acc.append(">");
            proof {
                assert(ps[k as int] == positions@[k as int] as int);
                assert(m[ps[k as int]] == self.used@[positions@[k as int] as int]@);
                lemma_extras_text_push(m, ps.take(k as int), ps[k as int]);
                assert(ps.take(k as int).push(ps[k as int]) =~= ps.take(k as int + 1));
                assert(bound_item_text(m[ps[k as int]]) =~= ", "@ + seq![b.alias] + ": IsA<"@
                    + b.type_str@ + ">"@);
                assert(acc@ =~= base@ + extras_text(m, ps.take(k as int + 1)));
            }
            k += 1;
        }
        proof {
            assert(ps.take(ps.len() as int) =~= ps);
        }
        match concurrency {
            Concurrency::NotConcurrent => {
                proof {
                    assert(acc@ =~= base@ + extras_text(m, ps) + concurrency_suffix(concurrency));
                }
            },
            Concurrency::Send => {
                acc.append(" + Send");
                proof {
                    assert(acc@ =~= base@ + extras_text(m, ps) + concurrency_suffix(concurrency));
                }
            },
            Concurrency::SendSync => {
                acc.append(" + Send + Sync");
                proof {
                    assert(acc@ =~= base@ + extras_text(m, ps) + concurrency_suffix(concurrency));
                }
            },
        }
        acc
    }
}

} // verus!

verus! {

impl Bounds {
    /// Synthesize and register the asynchronous completion slot, given its
    /// classification.
    fn resolve_async_callback(
        &mut self,
        env: &Env,
        func: &Function,
        par: &CParameter,
        bound_type: BoundType,
    ) -> (r: Option<CallbackInfo>)
        requires
            old(self).wf(),
            env.wf(),
            env.library.type_in_range(par.typ),
            par.name@ == "callback"@,
            type_for_spec(env.library, par.typ, par.nullable) == Some(bound_type),
            env.library.spec_rust_text(par.typ) is Some,
            !afp_async_callback(
                old(self).used_model(),
                old(self).n_lifetimes(),
                env.library,
                *func,
                *par,
                bound_type,
            ).fatal,
        ensures
            final(self).wf(),
            ({
                let res = afp_async_callback(
                    old(self).used_model(),
                    old(self).n_lifetimes(),
                    env.library,
                    *func,
                    *par,
                    bound_type,
                );
                &&& final(self).used_model() == res.used
                &&& final(self).n_lifetimes() == res.n_lifetimes
                &&& match r {
                    Some(ci) => res.cb matches Some(cm) && ci.callback_type@ == cm.callback_type
                        && ci.success_parameters@ == cm.success_parameters
                        && ci.error_parameters@ == cm.error_parameters && ci.bound_name
                        == cm.bound_name,
                    None => res.cb is None,
                }
            }),
    {
        let ghost used0 = self.used_model();
        let ghost nlt0 = self.n_lifetimes();
        let ghost lib = env.library;
        let ghost res = afp_async_callback(used0, nlt0, lib, *func, *par, bound_type);
        proof {
            lemma_type_for_not_nested_nowrapper(lib, par.typ, par.nullable);
        }
        let id = match &func.c_identifier {
            Some(id) => id,
            None => unreached(),
        };
        let finish_func_name = finish_function_name(id.as_str());
        match crate::library::find_function(env, finish_func_name.as_str()) {
            Some(function) => {
                proof {
                    crate::library::lemma_find_fn_in(lib.functions@, finish_func_name@);
                    assert(lib.fn_wf(*function));
                    assert(out_params_renderable(lib, *function));
                }
                let mut out_parameters = find_out_parameters(env, function);
                let ghost outs0 = out_params_spec(lib, *function, 0);
                if use_function_return_for_result(env, function.ret.typ) {
                    let rt = match rust_type(env, function.ret.typ) {
                        Some(s) => s.clone(),
                        None => unreached(),
                    };
                    out_parameters.insert(0, rt);
                    proof {
                        assert(str_views(out_parameters@) =~= seq![
                            lib.spec_rust_text(function.ret.typ)->0
                        ] + outs0);
                    }
                }
                let parameters = format_out_parameters(&out_parameters);
                let error_type = match find_error_type(env, function) {
                    Some(e) => e,
                    None => unreached(),
                };
                let mut type_string: String = "FnOnce(Result<".to_owned();
                type_string.append(parameters.as_str());
                type_string.append(", ");
                type_string.append(error_type.as_str());
                type_string.append(">) + Send + 'static");
                proof {
                    assert(used0.len() < alias_count());
                    assert(self.unused@.len() > 0);
                    assert(self.unused@[0] == alias_alphabet()[used0.len() as int]);
                }
                let bound_name = self.unused[0];
                let callback_info = CallbackInfo {
                    callback_type: type_string.clone(),
                    success_parameters: parameters,
                    error_parameters: error_type,
                    bound_name,
                };
                let ok = self.add_parameter(
                    par.name.as_str(),
                    type_string.as_str(),
                    bound_type,
                    true,
                );
                if !ok {
                    proof {
                        assert(false);
                    }
                }
                Some(callback_info)
            },
            None => {
                let type_text = match rust_type(env, par.typ) {
                    Some(s) => s.clone(),
                    None => unreached(),
                };
                proof {
                    assert(type_text@ == text_or_empty(lib, par.typ));
                }
                let ok = self.add_parameter(
                    par.name.as_str(),
                    type_text.as_str(),
                    bound_type,
                    true,
                );
                if !ok {
                    proof {
                        assert(false);
                    }
                }
                None
            },
        }
    }

    /// Walk the sub-parameters of a nested function signature, reusing a
    /// binding that renders to the identical type text and creating a fresh
    /// visible binding for each new plain polymorphic sub-parameter.
    fn collect_extra_bounds(&mut self, env: &Env, fparams: &Vec<Param>) -> (r: Vec<usize>)
        requires
            old(self).wf(),
            env.wf(),
            forall|i: int|
                0 <= i < fparams@.len() ==> env.library.type_in_range(
                    (#[trigger] fparams@[i]).typ,
                ),
            !extras_fold(old(self).used_model(), env.library, fparams@, 0).overflow,
        ensures
            final(self).wf(),
            ({
                let total = extras_fold(old(self).used_model(), env.library, fparams@, 0);
                &&& final(self).used_model() == total.used
                &&& usize_views(r@) == total.positions
                &&& final(self).n_lifetimes() == old(self).n_lifetimes()
                &&& forall|k: int| 0 <= k < r@.len() ==> (#[trigger] r@[k]) < final(self).used@.len()
                &&& final(self).used@.len() == total.used.len()
            }),
    {
        let ghost used0 = self.used_model();
        let ghost lib = env.library;
        let ghost total = extras_fold(used0, lib, fparams@, 0);
        let mut extra_bounds: Vec<usize> = Vec::new();
        let mut pos: usize = 0;
        while pos < fparams.len()
            invariant
                self.wf(),
                0 <= pos <= fparams@.len(),
                env.wf(),
                lib == env.library,
                forall|i: int|
                    0 <= i < fparams@.len() ==> lib.type_in_range((#[trigger] fparams@[i]).typ),
                total == extras_fold(used0, lib, fparams@, 0),
                extras_fold(self.used_model(), lib, fparams@, pos as int).used == total.used,
                usize_views(extra_bounds@) + extras_fold(
                    self.used_model(),
                    lib,
                    fparams@,
                    pos as int,
                ).positions == total.positions,
                !extras_fold(self.used_model(), lib, fparams@, pos as int).overflow,
                forall|k: int|
                    0 <= k < extra_bounds@.len() ==> (#[trigger] extra_bounds@[k])
                        < self.used@.len(),
                self.used_model().len() == self.used@.len(),
                self.n_lifetimes() == old(self).n_lifetimes(),
            decreases fparams@.len() - pos,
        {
            let ghost cur = self.used_model();
            let ghost step = extras_step(cur, lib, fparams@[pos as int]);
            let p = &fparams[pos];
            let text: String = match rust_type(env, p.typ) {
                Some(s) => s.clone(),
                None => String::new(),
            };
            proof {
                assert(text@ == text_or_empty(lib, p.typ));
            }
            let cls = Bounds::type_for(env, p.typ, p.nullable);
            let is_isa_none = match &cls {
                Some(BoundType::IsA(None)) => true,
                _ => false,
            };
            if is_isa_none {
                proof {
                    assert(type_for_spec(lib, p.typ, p.nullable) == Some(BoundType::IsA(None)));
                }
                match self.first_text_match_exec(text.as_str()) {
                    Some(sub_pos) => {
                        proof {
                            lemma_first_text_match_bounds(cur, text@);
                            assert(step.positions =~= seq![sub_pos as int]);
                        }
                        let ghost eb0 = usize_views(extra_bounds@);
                        extra_bounds.push(sub_pos);
                        proof {
                            assert(usize_views(extra_bounds@) =~= eb0.push(sub_pos as int));
                            assert(eb0.push(sub_pos as int) + extras_fold(
                                cur,
                                lib,
                                fparams@,
                                pos as int + 1,
                            ).positions =~= eb0 + (step.positions + extras_fold(
                                cur,
                                lib,
                                fparams@,
                                pos as int + 1,
                            ).positions));
                        }
                    },
                    None => {
                        proof {
                            assert(!step.overflow);
                            assert(cur.len() < alias_count());
                            assert(self.unused@.len() > 0);
                        }
                        let alias = self.unused.remove(0);
                        let ghost eb0 = usize_views(extra_bounds@);
                        let created = self.used.len();
                        let info = Bound {
                            bound_type: BoundType::IsA(None),
                            parameter_name: p.name.clone(),
                            alias,
                            type_str: text,
                            info_for_next_type: false,
                            callback_modified: false,
                        };
                        extra_bounds.push(created);
                        self.used.push(info);
                        proof {
                            assert(self.unused@ =~= alias_alphabet().skip(
                                self.used@.len() as int,
                            ));
                            assert(self.used_model() =~= cur.push(info@));
                            assert(step.used =~= self.used_model());
                            assert(usize_views(extra_bounds@) =~= eb0.push(created as int));
                            assert(step.positions =~= seq![created as int]);
                            assert(eb0.push(created as int) + extras_fold(
                                step.used,
                                lib,
                                fparams@,
                                pos as int + 1,
                            ).positions =~= eb0 + (step.positions + extras_fold(
                                step.used,
                                lib,
                                fparams@,
                                pos as int + 1,
                            ).positions));
                        }
                    },
                }
            } else {
                proof {
                    assert(step.used == cur);
                    assert(step.positions =~= Seq::<int>::empty());
                    assert(usize_views(extra_bounds@) + extras_fold(
                        cur,
                        lib,
                        fparams@,
                        pos as int + 1,
                    ).positions =~= usize_views(extra_bounds@) + (step.positions + extras_fold(
                        cur,
                        lib,
                        fparams@,
                        pos as int + 1,
                    ).positions));
                }
            }
            pos += 1;
        }
        proof {
            assert(extras_fold(self.used_model(), lib, fparams@, fparams@.len() as int).used
                == self.used_model());
            assert(usize_views(extra_bounds@) + Seq::<int>::empty() =~= usize_views(
                extra_bounds@,
            ));
        }
        extra_bounds
    }

    /// Demote the just-registered conversion binding to a raw generic and
    /// append its split companion.
    fn apply_split_companion(&mut self)
        requires
            old(self).wf(),
            0 < old(self).used_model().len() < alias_count(),
            !old(self).used_model()[old(self).used_model().len() - 1].info_for_next_type,
        ensures
            final(self).wf(),
            final(self).used_model() == split_fixup_spec(old(self).used_model()),
            final(self).n_lifetimes() == old(self).n_lifetimes(),
    {
        let ghost add_used = self.used_model();
        let li = self.used.len() - 1;
        let alias2 = self.unused.remove(0);
        let last_ref = &self.used[li];
        let companion = Bound {
            bound_type: last_ref.bound_type.clone(),
            parameter_name: last_ref.parameter_name.clone(),
            alias: alias2,
            type_str: char_to_string(last_ref.alias),
            info_for_next_type: last_ref.info_for_next_type,
            callback_modified: true,
        };
        let demoted = Bound {
            bound_type: BoundType::NoWrapper,
            parameter_name: String::new(),
            alias: last_ref.alias,
            type_str: last_ref.type_str.clone(),
            info_for_next_type: last_ref.info_for_next_type,
            callback_modified: last_ref.callback_modified,
        };
        self.used.set(li, demoted);
        self.used.push(companion);
        proof {
            assert(self.unused@ =~= alias_alphabet().skip(self.used@.len() as int));
            assert(self.used_model() =~= split_fixup_spec(add_used));
        }
    }

    /// Synthesize and register a synchronous function-pointer slot, given
    /// its classification.
    fn resolve_fnptr(
        &mut self,
        env: &Env,
        par: &CParameter,
        bound_type: BoundType,
        is_async: bool,
        concurrency: Concurrency,
    ) -> (r: Option<CallbackInfo>)
        requires
            old(self).wf(),
            env.wf(),
            env.library.type_in_range(par.typ),
            type_for_spec(env.library, par.typ, par.nullable) == Some(bound_type),
            env.library.spec_rust_text(par.typ) is Some,
            env.library.spec_type(par.typ) is Function,
            !afp_fnptr(
                old(self).used_model(),
                old(self).n_lifetimes(),
                env.library,
                *par,
                bound_type,
                is_async,
                concurrency,
            ).fatal,
        ensures
            final(self).wf(),
            ({
                let res = afp_fnptr(
                    old(self).used_model(),
                    old(self).n_lifetimes(),
                    env.library,
                    *par,
                    bound_type,
                    is_async,
                    concurrency,
                );
                &&& final(self).used_model() == res.used
                &&& final(self).n_lifetimes() == res.n_lifetimes
                &&& match r {
                    Some(ci) => res.cb matches Some(cm) && ci.callback_type@ == cm.callback_type
                        && ci.success_parameters@ == cm.success_parameters
                        && ci.error_parameters@ == cm.error_parameters && ci.bound_name
                        == cm.bound_name,
                    None => res.cb is None,
                }
            }),
    {
        let ghost used0 = self.used_model();
        let ghost nlt0 = self.n_lifetimes();
        let ghost lib = env.library;
        let ghost res = afp_fnptr(used0, nlt0, lib, *par, bound_type, is_async, concurrency);
        proof {
            lemma_type_for_not_nested_nowrapper(lib, par.typ, par.nullable);
        }
        let base: String = match rust_type(env, par.typ) {
            Some(s) => s.clone(),
            None => unreached(),
        };
        let fparams: &Vec<Param> = match env.type_(par.typ) {
            Type::Function(f) => &f.parameters,
            _ => unreached(),
        };
        let ghost total = extras_fold(used0, lib, fparams@, 0);
        proof {
            assert(!total.overflow);
            assert(forall|i: int|
                0 <= i < fparams@.len() ==> lib.type_in_range((#[trigger] fparams@[i]).typ));
        }
        let extra_bounds = self.collect_extra_bounds(env, fparams);
        let type_string = self.render_callback_type(base.as_str(), &extra_bounds, concurrency);
        proof {
            assert(self.used_model() == total.used);
            assert(total.used.len() < alias_count());
            assert(self.unused@.len() > 0);
            assert(self.unused@[0] == alias_alphabet()[self.used@.len() as int]);
        }
        let bound_name = self.unused[0];
        let callback_info = CallbackInfo {
            callback_type: type_string.clone(),
            success_parameters: String::new(),
            error_parameters: String::new(),
            bound_name,
        };
        let ok = self.add_parameter(par.name.as_str(), type_string.as_str(), bound_type, is_async);
        if !ok {
            proof {
                assert(false);
            }
        }
        let li = self.used.len() - 1;
        if self.used[li].bound_type.is_into() {
            proof {
                assert(self.used_model()[self.used_model().len() - 1].bound_type matches
                    BoundType::Into(_, _));
                assert(self.used_model().len() < alias_count());
                assert(!self.used_model()[self.used_model().len() - 1].info_for_next_type);
            }
            self.apply_split_companion();
        }
        Some(callback_info)
    }

    /// Resolve one parameter of the function being generated.
    ///
    /// Returns the dereference text for the forwarded argument, if the
    /// parameter's scheme has one, and the synthesized callback descriptor,
    /// if the slot asked for one. The precondition excludes exactly the
    /// fatal outcomes of the model: an exhausted symbol pool at a point a
    /// symbol is owed ("too many type constraints"), and a malformed
    /// completion convention.
    pub fn add_for_parameter(
        &mut self,
        env: &Env,
        func: &Function,
        par: &CParameter,
        is_async: bool,
        concurrency: Concurrency,
    ) -> (r: (Option<String>, Option<CallbackInfo>))
        requires
            old(self).wf(),
            env.wf(),
            env.library.type_in_range(par.typ),
            !afp_spec(
                old(self).used_model(),
                old(self).n_lifetimes(),
                env.library,
                *func,
                *par,
                is_async,
                concurrency,
            ).fatal,
        ensures
            final(self).wf(),
            ({
                let res = afp_spec(
                    old(self).used_model(),
                    old(self).n_lifetimes(),
                    env.library,
                    *func,
                    *par,
                    is_async,
                    concurrency,
                );
                &&& final(self).used_model() == res.used
                &&& final(self).n_lifetimes() == res.n_lifetimes
                &&& match r.0 {
                    Some(s) => res.ret == Some(s@),
                    None => res.ret is None,
                }
                &&& match r.1 {
                    Some(ci) => res.cb matches Some(cm) && ci.callback_type@ == cm.callback_type
                        && ci.success_parameters@ == cm.success_parameters
                        && ci.error_parameters@ == cm.error_parameters && ci.bound_name
                        == cm.bound_name,
                    None => res.cb is None,
                }
            }),
    {
        let ghost used0 = self.used_model();
        let ghost nlt0 = self.n_lifetimes();
        let ghost lib = env.library;
        let ghost res = afp_spec(used0, nlt0, lib, *func, *par, is_async, concurrency);

        if is_async && async_param_to_remove(par.name.as_str()) {
            return (None, None);
        }
        let type_text: String = match rust_type(env, par.typ) {
            Some(s) => s.clone(),
            None => {
                return (None, None);
            },
        };
        let is_out = match par.direction {
            ParameterDirection::Out => true,
            _ => false,
        };
        if !par.instance_parameter && !is_out {
            let bound_type = match Bounds::type_for(env, par.typ, par.nullable) {
                None => {
                    return (None, None);
                },
                Some(bt) => bt,
            };
            let ghost bt = bound_type;
            proof {
                lemma_type_for_not_nested_nowrapper(lib, par.typ, par.nullable);
            }
            let ret_string = Bounds::get_to_glib_extra(&bound_type);
            let is_gdn = string_eq_str(&par.c_type, "GDestroyNotify");
            let is_fn_type = match env.type_(par.typ) {
                Type::Function(_) => true,
                _ => false,
            };
            if is_async && string_eq_str(&par.name, "callback") {
                proof {
                    assert(res == afp_async_callback(used0, nlt0, lib, *func, *par, bt));
                }
                let callback_info = self.resolve_async_callback(env, func, par, bound_type);
                return (Some(ret_string), callback_info);
            } else if !is_gdn && is_fn_type {
                proof {
                    assert(res == afp_fnptr(used0, nlt0, lib, *par, bt, is_async, concurrency));
                }
                let callback_info = self.resolve_fnptr(env, par, bound_type, is_async, concurrency);
                return (Some(ret_string), callback_info);
            } else {
                let ok = self.add_parameter(
                    par.name.as_str(),
                    type_text.as_str(),
                    bound_type,
                    is_async,
                );
                if !ok {
                    proof {
                        assert(false);
                    }
                }
                return (Some(ret_string), None);
            }
        } else if par.instance_parameter {
            match Bounds::type_for(env, par.typ, par.nullable) {
                Some(bt2) => {
                    return (Some(Bounds::get_to_glib_extra(&bt2)), None);
                },
                None => {
                    return (None, None);
                },
            }
        } else {
            return (None, None);
        }
    }
}

} // verus!

verus! {

/// The symbol one binding requires: the polymorphism-capability marker for
/// a polymorphic scheme (also nested under a conversion), the concrete
/// wrapped type for a reference-like scheme (also nested, defensively),
/// nothing otherwise.
pub open spec fn bound_import(b: BoundModel) -> Option<Seq<char>> {
    match b.bound_type {
        BoundType::NoWrapper => None,
        BoundType::IsA(_) => Some("glib::object::IsA"@),
        BoundType::AsRef(_) => Some(b.type_str),
        BoundType::Into(_, Some(x)) => match *x {
            BoundType::IsA(_) => Some("glib::object::IsA"@),
            BoundType::AsRef(_) => Some(b.type_str),
            _ => None,
        },
        BoundType::Into(_, None) => None,
    }
}

/// The symbols a list of bindings requires: a pure function of the set of
/// bindings, independent of their order.
pub open spec fn import_set(used: Seq<BoundModel>) -> Set<Seq<char>> {
    Set::new(
        |s: Seq<char>|
            exists|i: int| 0 <= i < used.len() && bound_import(#[trigger] used[i]) == Some(s),
    )
}

impl Bounds {
    /// Collect the external symbols the resolved bindings require.
    pub fn update_imports(&self, imports: &mut Imports)
        ensures
            final(imports)@ == old(imports)@ + import_set(self.used_model()),
    {
        let ghost m = self.used_model();
        let ghost start = old(imports)@;
        let mut i: usize = 0;
        while i < self.used.len()
            invariant
                0 <= i <= self.used@.len(),
                m == self.used_model(),
                m.len() == self.used@.len(),
                imports@ == start + import_set(m.take(i as int)),
            decreases self.used@.len() - i,
        {
            let ghost before = imports@;
            let b = &self.used[i];
            let mut added: bool = false;
            let ghost contribution = bound_import(m[i as int]);
            match &b.bound_type {
                BoundType::NoWrapper => {},
                BoundType::IsA(_) => {
                    imports.add("glib::object::IsA");
                    added = true;
                },
                BoundType::AsRef(_) => {
                    imports.add_used_type(b.type_str.as_str());
                    added = true;
                },
                BoundType::Into(_, Some(x)) => {
                    match &**x {
                        BoundType::IsA(_) => {
                            imports.add("glib::object::IsA");
                            added = true;
                        },
                        BoundType::AsRef(_) => {
                            imports.add_used_type(b.type_str.as_str());
                            added = true;
                        },
                        _ => {},
                    }
                },
                BoundType::Into(_, None) => {},
            }
            proof {
                assert(m.take(i as int + 1).drop_last() =~= m.take(i as int));
                assert(m.take(i as int + 1).last() == m[i as int]);
                assert forall|s: Seq<char>| import_set(m.take(i as int + 1)).contains(s) implies (
                import_set(m.take(i as int)).contains(s) || contribution == Some(s)) by {
                    let j = choose|j: int|
                        0 <= j < m.take(i as int + 1).len() && bound_import(
                            #[trigger] m.take(i as int + 1)[j],
                        ) == Some(s);
                    if j < i {
                        assert(m.take(i as int)[j] == m.take(i as int + 1)[j]);
                    }
                }
                assert forall|s: Seq<char>| import_set(m.take(i as int)).contains(s) implies
                    import_set(m.take(i as int + 1)).contains(s) by {
                    let j = choose|j: int|
                        0 <= j < m.take(i as int).len() && bound_import(
                            #[trigger] m.take(i as int)[j],
                        ) == Some(s);
                    assert(m.take(i as int + 1)[j] == m.take(i as int)[j]);
                }
                if added {
                    assert(contribution matches Some(t) && imports@ == before.insert(t));
                    assert(m.take(i as int + 1)[i as int] == m[i as int]);
                    assert(import_set(m.take(i as int + 1)).contains(contribution->0));
                    assert(imports@ =~= start + import_set(m.take(i as int + 1)));
                } else {
                    assert(contribution is None);
                    assert(imports@ =~= start + import_set(m.take(i as int + 1)));
                }
            }
            i += 1;
        }
        proof {
            assert(m.take(m.len() as int) =~= m);
        }
    }
}

} // verus!

verus! {

impl Bound {
    /// The single conversion bound a property setter exposes: defined only
    /// when classification yields a conversion scheme. The bound takes the
    /// first alias of the alphabet, and the type's rendered text (empty when
    /// the rendering side has none).
    pub fn get_for_property_setter(
        env: &Env,
        var_name: &str,
        type_id: usize,
        nullable: Nullable,
    ) -> (r: Option<Bound>)
        requires
            env.library.type_in_range(type_id),
        ensures
            match r {
                Some(b) => type_for_spec(env.library, type_id, nullable) matches Some(bt)
                    && (bt matches BoundType::Into(_, _)) && b@ == BoundModel {
                    bound_type: bt,
                    parameter_name: var_name@,
                    alias: crate::consts::TYPE_PARAMETERS_START,
                    type_str: text_or_empty(env.library, type_id),
                    info_for_next_type: false,
                    callback_modified: false,
                },
                None => !(type_for_spec(env.library, type_id, nullable) matches Some(bt)
                    && bt matches BoundType::Into(_, _)),
            },
    {
        if let Some(bound_type) = Bounds::type_for(env, type_id, nullable) {
            if bound_type.is_into() {
                let type_str = match rust_type(env, type_id) {
                    Some(s) => s.clone(),
                    None => String::new(),
                };
                return Some(
                    Bound {
                        bound_type,
                        parameter_name: var_name.to_owned(),
                        alias: crate::consts::TYPE_PARAMETERS_START,
                        type_str,
                        info_for_next_type: false,
                        callback_modified: false,
                    },
                );
            }
        }
        None
    }
}

} // verus!
