//! The read-only library model that the binding engine consults.
//!
//! The engine only ever reads plain facts of the interface description: the
//! kind of each type, per-parameter direction, nullability and names, and a
//! name-to-function lookup used to pair an asynchronous function with its
//! completion counterpart. Those facts are held here as plain values; the
//! rendered text of a type, produced by the (unverified) rendering side, is
//! carried per type as an optional string, absent when the type cannot be
//! rendered.

use vstd::prelude::*;
use crate::strutil::str_eq;

verus! {

/// Whether a parameter may be absent at the call site.
#[derive(Clone, Copy, PartialEq, Eq, Structural, Debug)]
pub struct Nullable(pub bool);

/// Data-flow direction of one parameter.
#[derive(Clone, Copy, PartialEq, Eq, Structural, Debug)]
pub enum ParameterDirection {
    In,
    Out,
    InOut,
}

/// Execution contexts a callback value may be handed to.
#[derive(Clone, Copy, PartialEq, Eq, Structural, Debug)]
pub enum Concurrency {
    NotConcurrent,
    Send,
    SendSync,
}

/// Built-in leaf types of the interface description.
#[derive(Clone, Copy, PartialEq, Eq, Structural, Debug)]
pub enum Fundamental {
    Filename,
    OsString,
    Utf8,
    Boolean,
    Int,
    VoidType,
}

/// A class type; only finality matters to the engine.
#[derive(Clone, Debug)]
pub struct Class {
    pub final_type: bool,
}

/// A record type; its name becomes the error type of a completion handler.
#[derive(Clone, Debug)]
pub struct Record {
    pub name: String,
}

/// One parameter of a function of the library model.
#[derive(Clone, Debug)]
pub struct Param {
    pub name: String,
    pub typ: usize,
    pub direction: ParameterDirection,
    pub nullable: Nullable,
    /// Index of the parameter that carries this one's length, if this
    /// parameter is an array; that index is structurally redundant for the
    /// caller and is skipped when results are collected.
    pub array_length: Option<usize>,
}

/// One function of the library model.
#[derive(Clone, Debug)]
pub struct Function {
    pub name: String,
    pub c_identifier: Option<String>,
    pub parameters: Vec<Param>,
    pub ret: Param,
}

/// The kind of one type of the library model.
#[derive(Clone, Debug)]
pub enum Type {
    Fundamental(Fundamental),
    Class(Class),
    Interface,
    List,
    SList,
    CArray,
    Function(Function),
    Record(Record),
    Other,
}

/// One type together with its rendered text; `None` when the rendering side
/// cannot produce a text for it.
#[derive(Clone, Debug)]
pub struct TypeEntry {
    pub typ: Type,
    pub rust_text: Option<String>,
}

/// The full library model: types addressed by index, and the functions that
/// the completion lookup searches.
#[derive(Clone, Debug)]
pub struct Library {
    pub types: Vec<TypeEntry>,
    pub functions: Vec<Function>,
}

/// The generation environment handed through the engine.
#[derive(Clone, Debug)]
pub struct Env {
    pub library: Library,
}

/// One analyzed parameter of the function whose signature is being resolved.
#[derive(Clone, Debug)]
pub struct CParameter {
    pub name: String,
    pub typ: usize,
    pub c_type: String,
    pub instance_parameter: bool,
    pub direction: ParameterDirection,
    pub nullable: Nullable,
}

impl Library {
    /// A type reference is valid when it indexes the type table.
    pub open spec fn type_in_range(&self, tid: usize) -> bool {
        tid < self.types@.len()
    }

    /// The kind stored for a valid type reference.
    pub open spec fn spec_type(&self, tid: usize) -> Type {
        self.types@[tid as int].typ
    }

    /// The rendered text stored for a valid type reference.
    pub open spec fn spec_rust_text(&self, tid: usize) -> Option<Seq<char>> {
        match self.types@[tid as int].rust_text {
            Some(s) => Some(s@),
            None => None,
        }
    }

    /// Every type reference inside a function is valid.
    pub open spec fn fn_wf(&self, f: Function) -> bool {
        &&& self.type_in_range(f.ret.typ)
        &&& forall|i: int|
            0 <= i < f.parameters@.len() ==> self.type_in_range(
                (#[trigger] f.parameters@[i]).typ,
            )
    }

    /// Every type reference anywhere in the model is valid.
    pub open spec fn wf(&self) -> bool {
        &&& forall|t: int|
            0 <= t < self.types@.len() ==> match (#[trigger] self.types@[t]).typ {
                Type::Function(f) => self.fn_wf(f),
                _ => true,
            }
        &&& forall|j: int|
            0 <= j < self.functions@.len() ==> self.fn_wf(#[trigger] self.functions@[j])
    }

    /// The kind of a type, read from the table.
    pub fn type_(&self, tid: usize) -> (r: &Type)
        requires
            self.type_in_range(tid),
        ensures
            *r == self.spec_type(tid),
    {
        &self.types[tid].typ
    }
}

impl Env {
    pub open spec fn wf(&self) -> bool {
        self.library.wf()
    }

    /// The kind of a type, read from the model's table.
    pub fn type_(&self, tid: usize) -> (r: &Type)
        requires
            self.library.type_in_range(tid),
        ensures
            *r == self.library.spec_type(tid),
    {
        self.library.type_(tid)
    }
}

/// The rendered text of a type, or `None` when the rendering side could not
/// produce one.
pub fn rust_type<'a>(env: &'a Env, tid: usize) -> (r: Option<&'a String>)
    requires
        env.library.type_in_range(tid),
    ensures
        match r {
            Some(s) => env.library.spec_rust_text(tid) == Some(s@),
            None => env.library.spec_rust_text(tid) is None,
        },
{
    env.library.types[tid].rust_text.as_ref()
}

/// The conventional ignorable asynchronous user-data slot is recognized by
/// its literal name.
pub fn async_param_to_remove(name: &str) -> (r: bool)
    ensures
        r == (name@ == "user_data"@),
{
    str_eq(name, "user_data")
}

/// The name of an asynchronous function's completion counterpart: a trailing
/// `_async` is dropped, then `_finish` is appended.
pub open spec fn finish_name_spec(name: Seq<char>) -> Seq<char> {
    if name.len() >= 6 && name.skip(name.len() - 6) == "_async"@ {
        name.take(name.len() - 6) + "_finish"@
    } else {
        name + "_finish"@
    }
}

/// The fixed name-suffix transformation that locates a function's completion
/// counterpart.
pub fn finish_function_name(name: &str) -> (r: String)
    ensures
        r@ == finish_name_spec(name@),
{
    let n = name.unicode_len();
    if n >= 6 {
        let tail = name.substring_char(n - 6, n);
        if str_eq(tail, "_async") {
            let base = name.substring_char(0, n - 6);
            let mut out = base.to_owned();
            out.append("_finish");
            return out;
        }
    }
    let mut out = name.to_owned();
    out.append("_finish");
    out
}

/// Whether a function's identifier is this name.
pub open spec fn fn_matches(f: Function, name: Seq<char>) -> bool {
    match f.c_identifier {
        Some(id) => id@ == name,
        None => false,
    }
}

/// The first function of the sequence whose identifier is this name.
pub open spec fn find_fn_spec(fns: Seq<Function>, name: Seq<char>) -> Option<Function>
    decreases fns.len(),
{
    if fns.len() == 0 {
        None
    } else if fn_matches(fns[0], name) {
        Some(fns[0])
    } else {
        find_fn_spec(fns.drop_first(), name)
    }
}

proof fn lemma_find_fn_skip(fns: Seq<Function>, name: Seq<char>, j: int)
    requires
        0 <= j <= fns.len(),
        forall|k: int| 0 <= k < j ==> !fn_matches(#[trigger] fns[k], name),
    ensures
        find_fn_spec(fns, name) == find_fn_spec(fns.skip(j), name),
    decreases j,
{
    if j > 0 {
        lemma_find_fn_skip(fns, name, j - 1);
        assert(fns.skip(j - 1).len() > 0);
        assert(fns.skip(j - 1)[0] == fns[j - 1]);
        assert(!fn_matches(fns.skip(j - 1)[0], name));
        assert(fns.skip(j - 1).drop_first() =~= fns.skip(j));
    } else {
        assert(fns.skip(0) =~= fns);
    }
}

/// The name-to-function lookup over the library model: the first function
/// whose identifier equals the name.
pub fn find_function<'a>(env: &'a Env, name: &str) -> (r: Option<&'a Function>)
    ensures
        match r {
            Some(f) => find_fn_spec(env.library.functions@, name@) == Some(*f),
            None => find_fn_spec(env.library.functions@, name@) is None,
        },
{
    let fns = &env.library.functions;
    let ghost all = fns@;
    let mut j: usize = 0;
    while j < fns.len()
        invariant
            0 <= j <= all.len(),
            fns@ == all,
            env.library.functions@ == all,
            forall|k: int| 0 <= k < j ==> !fn_matches(#[trigger] all[k], name@),
        decreases all.len() - j,
    {
        let matched = match &fns[j].c_identifier {
            Some(id) => crate::strutil::string_eq_str(id, name),
            None => false,
        };
        if matched {
            proof {
                lemma_find_fn_skip(all, name@, j as int);
                assert(fn_matches(all[j as int], name@));
                assert(all.skip(j as int).len() > 0);
                assert(all.skip(j as int)[0] == all[j as int]);
                assert(find_fn_spec(all.skip(j as int), name@) == Some(all[j as int]));
            }
            return Some(&fns[j]);
        }
        j += 1;
    }
    proof {
        lemma_find_fn_skip(all, name@, all.len() as int);
    }
    None
}

/// The index flagged structurally redundant by the first array parameter, if
/// any: the position of the parameter that only carries that array's length.
pub open spec fn index_to_ignore_spec(params: Seq<Param>) -> Option<usize>
    decreases params.len(),
{
    if params.len() == 0 {
        None
    } else if params[0].array_length is Some {
        params[0].array_length
    } else {
        index_to_ignore_spec(params.drop_first())
    }
}

proof fn lemma_index_to_ignore_skip(params: Seq<Param>, j: int)
    requires
        0 <= j <= params.len(),
        forall|k: int| 0 <= k < j ==> (#[trigger] params[k]).array_length is None,
    ensures
        index_to_ignore_spec(params) == index_to_ignore_spec(params.skip(j)),
    decreases j,
{
    if j > 0 {
        lemma_index_to_ignore_skip(params, j - 1);
        assert(params.skip(j - 1)[0] == params[j - 1]);
        assert(params.skip(j - 1).drop_first() =~= params.skip(j));
    } else {
        assert(params.skip(0) =~= params);
    }
}

/// The helper that flags one parameter per function as structurally
/// redundant for result collection.
pub fn find_index_to_ignore(params: &Vec<Param>) -> (r: Option<usize>)
    ensures
        r == index_to_ignore_spec(params@),
{
    let ghost all = params@;
    let mut j: usize = 0;
    while j < params.len()
        invariant
            0 <= j <= all.len(),
            params@ == all,
            forall|k: int| 0 <= k < j ==> (#[trigger] all[k]).array_length is None,
        decreases all.len() - j,
    {
        if let Some(idx) = params[j].array_length {
            proof {
                lemma_index_to_ignore_skip(all, j as int);
                assert(all.skip(j as int)[0] == all[j as int]);
            }
            return Some(idx);
        }
        j += 1;
    }
    proof {
        lemma_index_to_ignore_skip(all, all.len() as int);
    }
    None
}

/// Whether the completion function's own return value is semantically
/// meaningful and belongs in the collected result.
pub open spec fn use_return_spec(lib: Library, tid: usize) -> bool {
    !(lib.spec_type(tid) == Type::Fundamental(Fundamental::VoidType))
}

/// Whether a completion function's return value takes part in the result.
pub fn use_function_return_for_result(env: &Env, tid: usize) -> (r: bool)
    requires
        env.library.type_in_range(tid),
    ensures
        r == use_return_spec(env.library, tid),
{
    match env.type_(tid) {
        Type::Fundamental(Fundamental::VoidType) => false,
        _ => true,
    }
}

} // verus!

verus! {

/// A function the lookup returns is a member of the searched sequence.
pub proof fn lemma_find_fn_in(fns: Seq<Function>, name: Seq<char>)
    ensures
        match find_fn_spec(fns, name) {
            Some(f) => exists|i: int| 0 <= i < fns.len() && #[trigger] fns[i] == f,
            None => true,
        },
    decreases fns.len(),
{
    if fns.len() > 0 && !fn_matches(fns[0], name) {
        lemma_find_fn_in(fns.drop_first(), name);
        match find_fn_spec(fns, name) {
            Some(f) => {
                let i = choose|i: int|
                    0 <= i < fns.drop_first().len() && #[trigger] fns.drop_first()[i] == f;
                assert(fns[i + 1] == f);
            },
            None => {},
        }
    }
}

} // verus!
