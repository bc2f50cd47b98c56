use crate::ast::Expr;
use crate::dynamic::is_string_value;
use crate::dynamic::string_content;
use crate::dynamic::variant_name_of;
use crate::dynamic::Dynamic;
use crate::dynamic::ValModel;
use crate::error::ErrModel;
use crate::error::EvalAltResult;
use vstd::prelude::*;

verus! {

/// The script-level type tag of a value's variant, used in exact call
/// signatures. Both string variants carry one script-level type.
#[derive(Clone, Copy, PartialEq, Eq, Structural)]
pub enum Tag {
    Unit,
    Bool,
    Int,
    Float,
    Str,
}

/// The tag of a value.
pub open spec fn tag_of(v: ValModel) -> Tag {
    match v {
        ValModel::Unit => Tag::Unit,
        ValModel::Bool(_) => Tag::Bool,
        ValModel::Int(_) => Tag::Int,
        ValModel::Float(_) => Tag::Float,
        ValModel::Str(_) => Tag::Str,
        ValModel::ImmutStr(_) => Tag::Str,
    }
}

/// The tag of a value, computed.
pub fn value_tag(d: &Dynamic) -> (t: Tag)
    ensures
        t == tag_of(d@),
{
    match d {
        Dynamic::Unit => Tag::Unit,
        Dynamic::Bool(_) => Tag::Bool,
        Dynamic::Int(_) => Tag::Int,
        Dynamic::Float(_) => Tag::Float,
        Dynamic::Str(_) => Tag::Str,
        Dynamic::ImmutStr(_) => Tag::Str,
    }
}

/// The natively implemented functions this engine ships. Host code registers
/// each under any name and signature it likes; the dispatcher then resolves
/// calls onto them.
#[derive(Clone, Copy, PartialEq, Eq, Structural)]
pub enum NativeFn {
    /// One argument of any type: returns its variant name as an owned string.
    TypeOf,
    /// One boolean: its logical negation.
    NotBool,
    /// Two strings: their concatenation as an owned string.
    Concat,
    /// One argument of any type: as a method it replaces the receiver with
    /// unit; it returns unit.
    Clear,
}

/// How many arguments a native function expects.
pub open spec fn native_arity(f: NativeFn) -> int {
    match f {
        NativeFn::TypeOf => 1,
        NativeFn::NotBool => 1,
        NativeFn::Concat => 2,
        NativeFn::Clear => 1,
    }
}

/// How many arguments a native function expects, computed.
pub fn native_arity_exec(f: NativeFn) -> (n: usize)
    ensures
        n as int == native_arity(f),
{
    match f {
        NativeFn::TypeOf => 1,
        NativeFn::NotBool => 1,
        NativeFn::Concat => 2,
        NativeFn::Clear => 1,
    }
}

/// The signature a native registration matches against calls.
pub enum FnSig {
    /// Matches only calls whose argument variants carry exactly these tags.
    Exact(Vec<Tag>),
    /// Matches any call of this arity, whatever the argument types.
    General(usize),
}

/// The arity a signature asks for.
pub open spec fn sig_arity(sig: FnSig) -> int {
    match sig {
        FnSig::Exact(ts) => ts@.len() as int,
        FnSig::General(n) => n as int,
    }
}

/// One natively registered function: its script-visible name, the signature it
/// matches, and what it runs.
pub struct FnEntry {
    pub name: String,
    pub sig: FnSig,
    pub func: NativeFn,
}

/// A script-defined function: named parameters and a body. The body is a
/// single expression over the parameters; the full statement language belongs
/// to the evaluator, one level up. A repeated parameter name reads as its
/// first occurrence.
pub struct ScriptFnDef {
    pub name: String,
    pub params: Vec<String>,
    pub body: Expr,
}

/// The function registry the dispatcher resolves against: natively registered
/// functions first, script-defined functions as the fallback.
pub struct FnRegistry {
    native: Vec<FnEntry>,
    script: Vec<ScriptFnDef>,
}

// ---------------------------------------------------------------------------
// Resolution, as a model: the first exactly matching native entry wins, then
// the first generally matching native entry, then the first script-defined
// function of the same name and arity; a same-named candidate of another arity
// gives an arity error, and no candidate at all gives "function not found".
// ---------------------------------------------------------------------------
/// The first element satisfying `p`, in sequence order.
pub open spec fn first_where<T>(s: Seq<T>, p: spec_fn(T) -> bool) -> Option<T>
    decreases s.len(),
{
    if s.len() == 0 {
        None
    } else if p(s[0]) {
        Some(s[0])
    } else {
        first_where(s.drop_first(), p)
    }
}

/// Once the first `k` elements are known not to satisfy `p`, the search may
/// start at `k`.
pub proof fn lemma_first_where_skip<T>(s: Seq<T>, p: spec_fn(T) -> bool, k: int)
    requires
        0 <= k <= s.len(),
        forall|i: int| 0 <= i < k ==> !p(s[i]),
    ensures
        first_where(s, p) == first_where(s.skip(k), p),
    decreases k,
{
    if k == 0 {
        assert(s.skip(0) =~= s);
    } else {
        lemma_first_where_skip(s, p, k - 1);
        assert(s.skip(k - 1).drop_first() =~= s.skip(k));
        assert(s.skip(k - 1)[0] == s[k - 1]);
    }
}

/// Whether an entry matches the call exactly: same name, an exact signature,
/// and every argument carrying the declared tag.
pub open spec fn entry_matches_exact(e: FnEntry, name: Seq<char>, args: Seq<ValModel>) -> bool {
    &&& e.name@ == name
    &&& e.sig matches FnSig::Exact(ts)
    &&& e.sig->Exact_0@.len() == args.len()
    &&& forall|i: int| 0 <= i < args.len() ==> e.sig->Exact_0@[i] == tag_of(args[i])
}

/// Whether an entry matches the call generally: same name, a general signature
/// of the call's arity.
pub open spec fn entry_matches_general(e: FnEntry, name: Seq<char>, arity: int) -> bool {
    &&& e.name@ == name
    &&& e.sig matches FnSig::General(n) && n as int == arity
}

/// Whether a script-defined function matches the call's name and arity.
pub open spec fn script_matches(d: ScriptFnDef, name: Seq<char>, arity: int) -> bool {
    d.name@ == name && d.params@.len() as int == arity
}

pub open spec fn exact_pred(name: Seq<char>, args: Seq<ValModel>) -> spec_fn(FnEntry) -> bool {
    |e: FnEntry| entry_matches_exact(e, name, args)
}

pub open spec fn general_pred(name: Seq<char>, arity: int) -> spec_fn(FnEntry) -> bool {
    |e: FnEntry| entry_matches_general(e, name, arity)
}

pub open spec fn script_pred(name: Seq<char>, arity: int) -> spec_fn(ScriptFnDef) -> bool {
    |d: ScriptFnDef| script_matches(d, name, arity)
}

pub open spec fn named_entry_pred(name: Seq<char>) -> spec_fn(FnEntry) -> bool {
    |e: FnEntry| e.name@ == name
}

pub open spec fn named_script_pred(name: Seq<char>) -> spec_fn(ScriptFnDef) -> bool {
    |d: ScriptFnDef| d.name@ == name
}

/// The arity of the first same-named candidate, natives before script-defined
/// functions; `None` when the name is registered nowhere.
pub open spec fn expected_arity(
    natives: Seq<FnEntry>,
    scripts: Seq<ScriptFnDef>,
    name: Seq<char>,
) -> Option<int> {
    match first_where(natives, named_entry_pred(name)) {
        Some(e) => Some(sig_arity(e.sig)),
        None => match first_where(scripts, named_script_pred(name)) {
            Some(d) => Some(d.params@.len() as int),
            None => None,
        },
    }
}

/// What a call resolves to.
pub enum Resolution {
    Native(NativeFn),
    Script(ScriptFnDef),
    Failed(ErrModel),
}

/// The dispatcher's resolution of a name and argument list.
pub open spec fn resolve_model(
    natives: Seq<FnEntry>,
    scripts: Seq<ScriptFnDef>,
    name: Seq<char>,
    args: Seq<ValModel>,
) -> Resolution {
    match first_where(natives, exact_pred(name, args)) {
        Some(e) => Resolution::Native(e.func),
        None => match first_where(natives, general_pred(name, args.len() as int)) {
            Some(e) => Resolution::Native(e.func),
            None => match first_where(scripts, script_pred(name, args.len() as int)) {
                Some(d) => Resolution::Script(d),
                None => match expected_arity(natives, scripts, name) {
                    Some(a) => Resolution::Failed(
                        ErrModel::ArityMismatch { name, expected: a, got: args.len() as int },
                    ),
                    None => Resolution::Failed(
                        ErrModel::FunctionNotFound { name, arity: args.len() as int },
                    ),
                },
            },
        },
    }
}

// ---------------------------------------------------------------------------
// Semantics of the native functions and of script-defined bodies.
// ---------------------------------------------------------------------------
/// Whether a native function accepts these arguments.
pub open spec fn native_ok(f: NativeFn, args: Seq<ValModel>) -> bool
    recommends
        args.len() == native_arity(f),
{
    match f {
        NativeFn::TypeOf => true,
        NativeFn::NotBool => args[0] is Bool,
        NativeFn::Concat => is_string_value(args[0]) && is_string_value(args[1]),
        NativeFn::Clear => true,
    }
}

/// What a native function returns when it accepts its arguments.
pub open spec fn native_result(f: NativeFn, args: Seq<ValModel>) -> ValModel
    recommends
        args.len() == native_arity(f),
        native_ok(f, args),
{
    match f {
        NativeFn::TypeOf => ValModel::Str(variant_name_of(args[0])),
        NativeFn::NotBool => ValModel::Bool(!args[0]->Bool_0),
        NativeFn::Concat => ValModel::Str(string_content(args[0]) + string_content(args[1])),
        NativeFn::Clear => ValModel::Unit,
    }
}

/// The error a native function raises when it rejects its arguments: the shape
/// it expected and the variant it actually saw.
pub open spec fn native_err(f: NativeFn, args: Seq<ValModel>) -> ErrModel
    recommends
        args.len() == native_arity(f),
        !native_ok(f, args),
{
    match f {
        NativeFn::NotBool => ErrModel::MismatchDataType {
            wanted: "bool"@,
            actual: variant_name_of(args[0]),
        },
        NativeFn::Concat => if !is_string_value(args[0]) {
            ErrModel::MismatchDataType { wanted: "string"@, actual: variant_name_of(args[0]) }
        } else {
            ErrModel::MismatchDataType { wanted: "string"@, actual: variant_name_of(args[1]) }
        },
        _ => ErrModel::MismatchDataType { wanted: Seq::empty(), actual: Seq::empty() },
    }
}

/// The receiver's value after a native method call: only `Clear` writes to it.
pub open spec fn native_recv(f: NativeFn, args: Seq<ValModel>) -> ValModel
    recommends
        args.len() == native_arity(f),
{
    match f {
        NativeFn::Clear => ValModel::Unit,
        _ => args[0],
    }
}

/// The first index at which `params` holds `name`.
pub open spec fn param_index(params: Seq<String>, name: Seq<char>) -> Option<int>
    decreases params.len(),
{
    if params.len() == 0 {
        None
    } else if params[0]@ == name {
        Some(0)
    } else {
        match param_index(params.drop_first(), name) {
            Some(i) => Some(i + 1),
            None => None,
        }
    }
}

/// What a script-defined function returns: its body is one expression, a
/// literal or a parameter read by name.
pub open spec fn script_result(d: ScriptFnDef, args: Seq<ValModel>) -> Result<ValModel, ErrModel>
    recommends
        args.len() == d.params@.len(),
{
    match d.body {
        Expr::Lit(v) => Ok(v@),
        Expr::Var(p) => match param_index(d.params@, p@) {
            Some(i) => Ok(args[i]),
            None => Err(ErrModel::VariableNotFound { name: p@ }),
        },
    }
}

/// The result of one dispatch: resolution, then the resolved callee's own
/// outcome. An error raised by the callee is the call's result, unchanged.
pub open spec fn call_result_model(
    natives: Seq<FnEntry>,
    scripts: Seq<ScriptFnDef>,
    name: Seq<char>,
    args: Seq<ValModel>,
) -> Result<ValModel, ErrModel> {
    match resolve_model(natives, scripts, name, args) {
        Resolution::Native(f) => if native_ok(f, args) {
            Ok(native_result(f, args))
        } else {
            Err(native_err(f, args))
        },
        Resolution::Script(d) => script_result(d, args),
        Resolution::Failed(e) => Err(e),
    }
}

/// Argument slot `i` after one dispatch. When resolution fails, no slot is
/// touched. When a callee runs, every slot is consumed — its value moves into
/// the callee and unit is left behind — except slot 0 when the caller asked to
/// keep the receiver by reference: that slot stays, mutated in place only by a
/// native method call.
pub open spec fn slot_after(
    natives: Seq<FnEntry>,
    scripts: Seq<ScriptFnDef>,
    name: Seq<char>,
    args: Seq<ValModel>,
    is_ref_mut: bool,
    is_method_call: bool,
    i: int,
) -> ValModel
    recommends
        0 <= i < args.len(),
{
    match resolve_model(natives, scripts, name, args) {
        Resolution::Failed(_) => args[i],
        Resolution::Native(f) => if i == 0 && is_ref_mut {
            if is_method_call {
                native_recv(f, args)
            } else {
                args[0]
            }
        } else {
            ValModel::Unit
        },
        Resolution::Script(_) => if i == 0 && is_ref_mut {
            args[0]
        } else {
            ValModel::Unit
        },
    }
}

/// The views of a sequence of values.
pub open spec fn views_of(s: Seq<Dynamic>) -> Seq<ValModel> {
    s.map_values(|d: Dynamic| d@)
}

impl FnRegistry {
    /// The native entries resolution sees.
    pub closed spec fn natives(&self) -> Seq<FnEntry> {
        self.native@
    }

    /// The script-defined entries resolution sees.
    pub closed spec fn scripts(&self) -> Seq<ScriptFnDef> {
        self.script@
    }

    /// Every native entry's signature fits the arity of the function it runs;
    /// constructors establish this and registration keeps it.
    pub closed spec fn wf(&self) -> bool {
        forall|i: int|
            0 <= i < self.native@.len() ==> sig_arity(
                (#[trigger] self.native@[i]).sig,
            ) == native_arity(self.native@[i].func)
    }

    /// An empty registry: nothing is registered yet.
    pub fn new() -> (r: FnRegistry)
        ensures
            r.wf(),
            r.natives() == Seq::<FnEntry>::empty(),
            r.scripts() == Seq::<ScriptFnDef>::empty(),
    {
        let r = FnRegistry { native: Vec::new(), script: Vec::new() };
        proof {
            assert(r.native@ =~= Seq::<FnEntry>::empty());
            assert(r.script@ =~= Seq::<ScriptFnDef>::empty());
        }
        r
    }

    /// Registers a native function under a script-visible name and signature.
    /// Registration succeeds exactly when the signature's arity fits the
    /// function; nothing changes otherwise.
    pub fn register_native(&mut self, name: String, sig: FnSig, func: NativeFn) -> (ok: bool)
        requires
            old(self).wf(),
        ensures
            final(self).wf(),
            ok == (sig_arity(sig) == native_arity(func)),
            ok ==> final(self).natives() == old(self).natives().push(
                (FnEntry { name: name, sig: sig, func: func }),
            ),
            !ok ==> final(self).natives() == old(self).natives(),
            final(self).scripts() == old(self).scripts(),
    {
        let arity = native_arity_exec(func);
        let declared: usize = match &sig {
            FnSig::Exact(ts) => ts.len(),
            FnSig::General(n) => *n,
        };
        if declared == arity {
            self.native.push(FnEntry { name, sig, func });
            true
        } else {
            false
        }
    }

    /// Registers a script-defined function as a fallback candidate.
    pub fn register_script_fn(&mut self, def: ScriptFnDef)
        requires
            old(self).wf(),
        ensures
            final(self).wf(),
            final(self).scripts() == old(self).scripts().push(def),
            final(self).natives() == old(self).natives(),
    {
        self.script.push(def);
    }
}

/// What exec resolution found; script candidates are handed out by index.
enum Target {
    Native(NativeFn),
    Script(usize),
    BadArity(usize),
    NotFound,
}

/// Whether the entry matches the call exactly.
fn entry_exact_match(e: &FnEntry, name: &String, args: &Vec<Dynamic>) -> (m: bool)
    ensures
        m == entry_matches_exact(*e, name@, views_of(args@)),
{
    let ghost vs = views_of(args@);
    if !(e.name == *name) {
        return false;
    }
    match &e.sig {
        FnSig::Exact(ts) => {
            if ts.len() != args.len() {
                return false;
            }
            let end = ts.len();
            let mut j: usize = 0;
            while j < end
                invariant
                    0 <= j <= end,
                    end == ts@.len(),
                    ts@.len() == args@.len(),
                    vs == views_of(args@),
                    vs.len() == args@.len(),
                    e.sig matches FnSig::Exact(ts2) && ts2@ == ts@,
                    forall|k: int| 0 <= k < j ==> ts@[k] == tag_of(vs[k]),
                decreases end - j,
            {
                if !(value_tag(&args[j]) == ts[j]) {
                    assert(ts@[j as int] != tag_of(vs[j as int]));
                    return false;
                }
                j += 1;
            }
            true
        },
        FnSig::General(_) => false,
    }
}

/// Whether the entry matches the call generally.
fn entry_general_match(e: &FnEntry, name: &String, arity: usize) -> (m: bool)
    ensures
        m == entry_matches_general(*e, name@, arity as int),
{
    if !(e.name == *name) {
        return false;
    }
    match &e.sig {
        FnSig::General(n) => *n == arity,
        FnSig::Exact(_) => false,
    }
}

/// Resolves a call, in the model's order, against the registry.
fn resolve_target(reg: &FnRegistry, name: &String, args: &Vec<Dynamic>) -> (t: Target)
    requires
        reg.wf(),
    ensures
        ({
            let res = resolve_model(reg.native@, reg.script@, name@, views_of(args@));
            match t {
                Target::Native(f) => res == Resolution::Native(f) && native_arity(f) == views_of(
                    args@,
                ).len(),
                Target::Script(i) => 0 <= i < reg.script@.len() && res == Resolution::Script(
                    reg.script@[i as int],
                ) && reg.script@[i as int].params@.len() == views_of(args@).len(),
                Target::BadArity(a) => res == Resolution::Failed(
                    (ErrModel::ArityMismatch {
                        name: name@,
                        expected: a as int,
                        got: args@.len() as int,
                    }),
                ),
                Target::NotFound => res == Resolution::Failed(
                    (ErrModel::FunctionNotFound { name: name@, arity: args@.len() as int }),
                ),
            }
        }),
{
    let ghost vs = views_of(args@);
    let n = args.len();

    // Pass 1: the first exactly matching native entry.
    let count = reg.native.len();
    let mut i: usize = 0;
    while i < count
        invariant
            0 <= i <= count,
            count == reg.native@.len(),
            vs == views_of(args@),
            reg.wf(),
            n == args@.len(),
            forall|k: int| 0 <= k < i ==> !exact_pred(name@, vs)(#[trigger] reg.native@[k]),
        decreases count - i,
    {
        if entry_exact_match(&reg.native[i], name, args) {
            proof {
                lemma_first_where_skip(reg.native@, exact_pred(name@, vs), i as int);
                assert(reg.native@.skip(i as int)[0] == reg.native@[i as int]);
            }
            return Target::Native(reg.native[i].func);
        }
        assert(!exact_pred(name@, vs)(reg.native@[i as int]));
        i += 1;
    }
    proof {
        lemma_first_where_skip(reg.native@, exact_pred(name@, vs), count as int);
        assert(reg.native@.skip(count as int) =~= Seq::<FnEntry>::empty());
    }

    // Pass 2: the first generally matching native entry.
    let mut i: usize = 0;
    while i < count
        invariant
            0 <= i <= count,
            count == reg.native@.len(),
            vs == views_of(args@),
            reg.wf(),
            n == args@.len(),
            first_where(reg.native@, exact_pred(name@, vs)) is None,
            forall|k: int| 0 <= k < i ==> !general_pred(name@, n as int)(#[trigger] reg.native@[k]),
        decreases count - i,
    {
        if entry_general_match(&reg.native[i], name, n) {
            proof {
                lemma_first_where_skip(reg.native@, general_pred(name@, n as int), i as int);
                assert(reg.native@.skip(i as int)[0] == reg.native@[i as int]);
            }
            return Target::Native(reg.native[i].func);
        }
        assert(!general_pred(name@, n as int)(reg.native@[i as int]));
        i += 1;
    }
    proof {
        lemma_first_where_skip(reg.native@, general_pred(name@, n as int), count as int);
        assert(reg.native@.skip(count as int) =~= Seq::<FnEntry>::empty());
    }

    // Pass 3: the first script-defined function of this name and arity.
    let script_count = reg.script.len();
    let mut i: usize = 0;
    while i < script_count
        invariant
            0 <= i <= script_count,
            script_count == reg.script@.len(),
            vs == views_of(args@),
            n == args@.len(),
            first_where(reg.native@, exact_pred(name@, vs)) is None,
            first_where(reg.native@, general_pred(name@, n as int)) is None,
            forall|k: int| 0 <= k < i ==> !script_pred(name@, n as int)(#[trigger] reg.script@[k]),
        decreases script_count - i,
    {
        let d = &reg.script[i];
        if d.name == *name && d.params.len() == n {
            proof {
                assert(script_matches(reg.script@[i as int], name@, n as int));
                assert(script_pred(name@, n as int)(reg.script@[i as int]));
                lemma_first_where_skip(reg.script@, script_pred(name@, n as int), i as int);
                assert(reg.script@.skip(i as int)[0] == reg.script@[i as int]);
            }
            return Target::Script(i);
        }
        assert(!script_pred(name@, n as int)(reg.script@[i as int]));
        i += 1;
    }
    proof {
        lemma_first_where_skip(reg.script@, script_pred(name@, n as int), script_count as int);
        assert(reg.script@.skip(script_count as int) =~= Seq::<ScriptFnDef>::empty());
    }

    // Pass 4: any same-named candidate at all means the arity was wrong.
    let mut i: usize = 0;
    while i < count
        invariant
            0 <= i <= count,
            count == reg.native@.len(),
            vs == views_of(args@),
            n == args@.len(),
            first_where(reg.native@, exact_pred(name@, vs)) is None,
            first_where(reg.native@, general_pred(name@, n as int)) is None,
            first_where(reg.script@, script_pred(name@, n as int)) is None,
            forall|k: int| 0 <= k < i ==> !named_entry_pred(name@)(#[trigger] reg.native@[k]),
        decreases count - i,
    {
        if reg.native[i].name == *name {
            proof {
                assert(named_entry_pred(name@)(reg.native@[i as int]));
                lemma_first_where_skip(reg.native@, named_entry_pred(name@), i as int);
                assert(reg.native@.skip(i as int)[0] == reg.native@[i as int]);
            }
            let expected: usize = match &reg.native[i].sig {
                FnSig::Exact(ts) => ts.len(),
                FnSig::General(m) => *m,
            };
            assert(expected as int == sig_arity(reg.native@[i as int].sig));
            return Target::BadArity(expected);
        }
        assert(!named_entry_pred(name@)(reg.native@[i as int]));
        i += 1;
    }
    proof {
        lemma_first_where_skip(reg.native@, named_entry_pred(name@), count as int);
        assert(reg.native@.skip(count as int) =~= Seq::<FnEntry>::empty());
    }
    let mut i: usize = 0;
    while i < script_count
        invariant
            0 <= i <= script_count,
            script_count == reg.script@.len(),
            vs == views_of(args@),
            n == args@.len(),
            first_where(reg.native@, exact_pred(name@, vs)) is None,
            first_where(reg.native@, general_pred(name@, n as int)) is None,
            first_where(reg.script@, script_pred(name@, n as int)) is None,
            first_where(reg.native@, named_entry_pred(name@)) is None,
            forall|k: int| 0 <= k < i ==> !named_script_pred(name@)(#[trigger] reg.script@[k]),
        decreases script_count - i,
    {
        if reg.script[i].name == *name {
            proof {
                assert(named_script_pred(name@)(reg.script@[i as int]));
                lemma_first_where_skip(reg.script@, named_script_pred(name@), i as int);
                assert(reg.script@.skip(i as int)[0] == reg.script@[i as int]);
            }
            return Target::BadArity(reg.script[i].params.len());
        }
        assert(!named_script_pred(name@)(reg.script@[i as int]));
        i += 1;
    }
    proof {
        lemma_first_where_skip(reg.script@, named_script_pred(name@), script_count as int);
        assert(reg.script@.skip(script_count as int) =~= Seq::<ScriptFnDef>::empty());
    }
    Target::NotFound
}

/// Relies on `format!`: the result is the first piece followed by the second.
#[verifier::external_body]
fn concat_str(a: &str, b: &str) -> (r: String)
    ensures
        r@ == a@ + b@,
{
    format!("{}{}", a, b)
}

/// The string content of a string-variant value, read in place.
fn content_ref(d: &Dynamic) -> (r: Option<&str>)
    ensures
        r is Some <==> is_string_value(d@),
        r matches Some(s) ==> s@ == string_content(d@),
{
    match d {
        Dynamic::Str(s) => Some(s.as_str()),
        Dynamic::ImmutStr(s) => Some(s.as_str()),
        _ => None,
    }
}

/// Runs a native function on the owned argument values. A method call may
/// write the receiver slot in place; nothing else is touched.
fn run_native(f: NativeFn, vals: &mut Vec<Dynamic>, is_method_call: bool) -> (r: Result<
    Dynamic,
    Box<EvalAltResult>,
>)
    requires
        old(vals)@.len() == native_arity(f),
    ensures
        ({
            let vs = views_of(old(vals)@);
            &&& native_ok(f, vs) ==> r is Ok && r->Ok_0@ == native_result(f, vs)
            &&& !native_ok(f, vs) ==> r is Err && r->Err_0@ == native_err(f, vs)
            &&& final(vals)@.len() == old(vals)@.len()
            &&& final(vals)@[0]@ == (if is_method_call {
                native_recv(f, vs)
            } else {
                vs[0]
            })
        }),
{
    match f {
        NativeFn::TypeOf => {
            let name = vals[0].variant_name();
            Ok(Dynamic::Str(name.to_owned()))
        },
        NativeFn::NotBool => match &vals[0] {
            Dynamic::Bool(b) => Ok(Dynamic::Bool(!*b)),
            other => Err(
                Box::new(
                    EvalAltResult::ErrorMismatchDataType(
                        "bool".to_owned(),
                        other.variant_name().to_owned(),
                    ),
                ),
            ),
        },
        NativeFn::Concat => match content_ref(&vals[0]) {
            None => Err(
                Box::new(
                    EvalAltResult::ErrorMismatchDataType(
                        "string".to_owned(),
                        vals[0].variant_name().to_owned(),
                    ),
                ),
            ),
            Some(a) => match content_ref(&vals[1]) {
                None => Err(
                    Box::new(
                        EvalAltResult::ErrorMismatchDataType(
                            "string".to_owned(),
                            vals[1].variant_name().to_owned(),
                        ),
                    ),
                ),
                Some(b) => Ok(Dynamic::Str(concat_str(a, b))),
            },
        },
        NativeFn::Clear => {
            if is_method_call {
                let mut unit = Dynamic::Unit;
                core::mem::swap(&mut unit, &mut vals[0]);
            }
            Ok(Dynamic::Unit)
        },
    }
}

/// Once the first `k` parameters are known not to be `name`, the search may
/// start at `k`, shifting the found index back up.
proof fn lemma_param_index_skip(params: Seq<String>, name: Seq<char>, k: int)
    requires
        0 <= k <= params.len(),
        forall|i: int| 0 <= i < k ==> (#[trigger] params[i])@ != name,
    ensures
        param_index(params, name) == match param_index(params.skip(k), name) {
            Some(i) => Some(i + k),
            None => None::<int>,
        },
    decreases k,
{
    if k == 0 {
        assert(params.skip(0) =~= params);
    } else {
        lemma_param_index_skip(params, name, k - 1);
        assert(params.skip(k - 1).drop_first() =~= params.skip(k));
        assert(params.skip(k - 1)[0] == params[k - 1]);
    }
}

/// Runs a script-defined function on the argument values, reading them in
/// place: the body is one expression, a literal or a parameter read by name.
fn run_script(def: &ScriptFnDef, vals: &Vec<Dynamic>) -> (r: Result<Dynamic, Box<EvalAltResult>>)
    requires
        vals@.len() == def.params@.len(),
    ensures
        ({
            let res = script_result(*def, views_of(vals@));
            &&& r is Ok <==> res is Ok
            &&& r is Ok ==> r->Ok_0@ == res->Ok_0
            &&& r is Err ==> r->Err_0@ == res->Err_0
        }),
{
    match &def.body {
        Expr::Lit(d) => Ok(d.clone_value()),
        Expr::Var(p) => {
            let count = def.params.len();
            let mut j: usize = 0;
            while j < count
                invariant
                    0 <= j <= count,
                    count == def.params@.len(),
                    vals@.len() == count,
                    def.body matches Expr::Var(p2) && p2@ == p@,
                    forall|k: int| 0 <= k < j ==> (#[trigger] def.params@[k])@ != p@,
                decreases count - j,
            {
                if def.params[j] == *p {
                    proof {
                        lemma_param_index_skip(def.params@, p@, j as int);
                        assert(def.params@.skip(j as int)[0] == def.params@[j as int]);
                    }
                    return Ok(vals[j].clone_value());
                }
                j += 1;
            }
            proof {
                lemma_param_index_skip(def.params@, p@, count as int);
                assert(def.params@.skip(count as int) =~= Seq::<String>::empty());
            }
            Err(Box::new(EvalAltResult::ErrorVariableNotFound(p.clone())))
        },
    }
}

/// Moves every value out of the slots, leaving the unit placeholder behind.
fn take_values(args: &mut Vec<Dynamic>) -> (vals: Vec<Dynamic>)
    ensures
        vals@ == old(args)@,
        final(args)@.len() == old(args)@.len(),
        forall|i: int| 0 <= i < old(args)@.len() ==> (#[trigger] final(args)@[i]) == Dynamic::Unit,
{
    let n = args.len();
    let mut vals: Vec<Dynamic> = Vec::new();
    let mut i: usize = 0;
    while i < n
        invariant
            0 <= i <= n,
            n == old(args)@.len(),
            args@.len() == n,
            vals@.len() == i,
            forall|j: int| 0 <= j < i ==> (#[trigger] vals@[j]) == old(args)@[j],
            forall|j: int| 0 <= j < i ==> (#[trigger] args@[j]) == Dynamic::Unit,
            forall|j: int| i <= j < n ==> (#[trigger] args@[j]) == old(args)@[j],
        decreases n - i,
    {
        let mut tmp = Dynamic::Unit;
        core::mem::swap(&mut tmp, &mut args[i]);
        vals.push(tmp);
        i += 1;
    }
    proof {
        assert(vals@ =~= old(args)@);
    }
    vals
}

/// The per-invocation object describing a function call in progress; it
/// borrows the registry the dispatcher resolves against.
pub struct NativeCallContext<'a> {
    registry: &'a FnRegistry,
}

impl<'a> NativeCallContext<'a> {
    /// The native entries resolution sees.
    pub closed spec fn natives(&self) -> Seq<FnEntry> {
        self.registry.native@
    }

    /// The script-defined entries resolution sees.
    pub closed spec fn scripts(&self) -> Seq<ScriptFnDef> {
        self.registry.script@
    }

    /// The borrowed registry is well formed.
    pub closed spec fn wf(&self) -> bool {
        self.registry.wf()
    }

    /// A call context over a registry.
    pub fn new(registry: &'a FnRegistry) -> (r: NativeCallContext<'a>)
        ensures
            r.natives() == registry.natives(),
            r.scripts() == registry.scripts(),
            r.wf() == registry.wf(),
    {
        NativeCallContext { registry }
    }

    /// Calls a function inside the call context.
    ///
    /// Every argument slot is consumed: its value moves into the callee and
    /// unit is left behind, so that no value is cloned just to cross the call
    /// boundary. Callers that still need a value afterwards must clone it
    /// before the call. The one exception is slot 0 when `is_ref_mut` is true:
    /// that slot is kept, and a native method call (`is_method_call`) may
    /// mutate it in place. When resolution fails, no slot is touched and the
    /// structured error says exactly why; an error raised by the callee is
    /// returned unchanged.
    pub fn call_fn_raw(
        &self,
        fn_name: &str,
        is_ref_mut: bool,
        is_method_call: bool,
        args: &mut Vec<Dynamic>,
    ) -> (r: Result<Dynamic, Box<EvalAltResult>>)
        requires
            self.wf(),
        ensures
            ({
                let vs = views_of(old(args)@);
                let res = call_result_model(self.natives(), self.scripts(), fn_name@, vs);
                &&& r is Ok <==> res is Ok
                &&& r is Ok ==> r->Ok_0@ == res->Ok_0
                &&& r is Err ==> r->Err_0@ == res->Err_0
                &&& final(args)@.len() == old(args)@.len()
                &&& forall|i: int|
                    0 <= i < old(args)@.len() ==> (#[trigger] final(args)@[i])@ == slot_after(
                        self.natives(),
                        self.scripts(),
                        fn_name@,
                        vs,
                        is_ref_mut,
                        is_method_call,
                        i,
                    )
            }),
    {
        let name: String = fn_name.to_owned();
        let n = args.len();
        match resolve_target(self.registry, &name, args) {
            Target::NotFound => Err(
                Box::new(EvalAltResult::ErrorFunctionNotFound(name, n)),
            ),
            Target::BadArity(expected) => Err(
                Box::new(EvalAltResult::ErrorArityMismatch(name, expected, n)),
            ),
            Target::Native(f) => {
                let keep_receiver = is_ref_mut && n > 0;
                let mut vals = take_values(args);
                let outcome = run_native(f, &mut vals, is_method_call);
                if keep_receiver {
                    let mut receiver = Dynamic::Unit;
                    core::mem::swap(&mut receiver, &mut vals[0]);
                    core::mem::swap(&mut receiver, &mut args[0]);
                }
                outcome
            },
            Target::Script(idx) => {
                let keep_receiver = is_ref_mut && n > 0;
                let mut vals = take_values(args);
                let outcome = run_script(&self.registry.script[idx], &vals);
                if keep_receiver {
                    let mut receiver = Dynamic::Unit;
                    core::mem::swap(&mut receiver, &mut vals[0]);
                    core::mem::swap(&mut receiver, &mut args[0]);
                }
                outcome
            },
        }
    }

    /// Deprecated alias of [`NativeCallContext::call_fn_raw`]. It forwards the
    /// method-call flag as both the "is method" and the "keep the receiver by
    /// reference" flags, and returns exactly what its replacement returns.
    pub fn call_fn_dynamic_raw(
        &self,
        fn_name: &str,
        is_method_call: bool,
        args: &mut Vec<Dynamic>,
    ) -> (r: Result<Dynamic, Box<EvalAltResult>>)
        requires
            self.wf(),
        ensures
            ({
                let vs = views_of(old(args)@);
                let res = call_result_model(self.natives(), self.scripts(), fn_name@, vs);
                &&& r is Ok <==> res is Ok
                &&& r is Ok ==> r->Ok_0@ == res->Ok_0
                &&& r is Err ==> r->Err_0@ == res->Err_0
                &&& final(args)@.len() == old(args)@.len()
                &&& forall|i: int|
                    0 <= i < old(args)@.len() ==> (#[trigger] final(args)@[i])@ == slot_after(
                        self.natives(),
                        self.scripts(),
                        fn_name@,
                        vs,
                        is_method_call,
                        is_method_call,
                        i,
                    )
            }),
    {
        self.call_fn_raw(fn_name, is_method_call, is_method_call, args)
    }
}

/// For a dispatched method call that keeps its receiver by reference (both
/// flags true): once a callee is resolved, the caller's slot 0 still holds a
/// value afterwards — the receiver, updated in place only by a native method —
/// and every other slot is consumed and left holding unit.
pub proof fn lemma_method_call_consumption(
    natives: Seq<FnEntry>,
    scripts: Seq<ScriptFnDef>,
    name: Seq<char>,
    args: Seq<ValModel>,
    i: int,
)
    requires
        0 <= i < args.len(),
        !(resolve_model(natives, scripts, name, args) is Failed),
    ensures
        slot_after(natives, scripts, name, args, true, true, 0) == (match resolve_model(
            natives,
            scripts,
            name,
            args,
        ) {
            Resolution::Native(f) => native_recv(f, args),
            _ => args[0],
        }),
        0 < i ==> slot_after(natives, scripts, name, args, true, true, i) == ValModel::Unit,
{
}

/// For a dispatched non-method call (both flags false): once a callee is
/// resolved, every slot is consumed and left holding unit.
pub proof fn lemma_plain_call_consumption(
    natives: Seq<FnEntry>,
    scripts: Seq<ScriptFnDef>,
    name: Seq<char>,
    args: Seq<ValModel>,
    i: int,
)
    requires
        0 <= i < args.len(),
        !(resolve_model(natives, scripts, name, args) is Failed),
    ensures
        slot_after(natives, scripts, name, args, false, false, i) == ValModel::Unit,
{
}

/// A name registered nowhere, under any arity, dispatches to exactly
/// `FunctionNotFound`, echoing the name and the arity asked for.
pub proof fn lemma_unregistered_not_found(
    natives: Seq<FnEntry>,
    scripts: Seq<ScriptFnDef>,
    name: Seq<char>,
    args: Seq<ValModel>,
)
    requires
        forall|i: int| 0 <= i < natives.len() ==> (#[trigger] natives[i]).name@ != name,
        forall|i: int| 0 <= i < scripts.len() ==> (#[trigger] scripts[i]).name@ != name,
    ensures
        call_result_model(natives, scripts, name, args) == Err::<ValModel, ErrModel>(
            (ErrModel::FunctionNotFound { name: name, arity: args.len() as int }),
        ),
{
    let n = args.len() as int;
    assert forall|i: int| 0 <= i < natives.len() implies !(exact_pred(name, args)(
        #[trigger] natives[i],
    )) by {
        assert(natives[i].name@ != name);
    }
    assert forall|i: int| 0 <= i < natives.len() implies !(general_pred(name, n)(
        #[trigger] natives[i],
    )) by {
        assert(natives[i].name@ != name);
    }
    assert forall|i: int| 0 <= i < natives.len() implies !(named_entry_pred(name)(
        #[trigger] natives[i],
    )) by {
        assert(natives[i].name@ != name);
    }
    assert forall|i: int| 0 <= i < scripts.len() implies !(script_pred(name, n)(
        #[trigger] scripts[i],
    )) by {
        assert(scripts[i].name@ != name);
    }
    assert forall|i: int| 0 <= i < scripts.len() implies !(named_script_pred(name)(
        #[trigger] scripts[i],
    )) by {
        assert(scripts[i].name@ != name);
    }
    lemma_first_where_skip(natives, exact_pred(name, args), natives.len() as int);
    lemma_first_where_skip(natives, general_pred(name, n), natives.len() as int);
    lemma_first_where_skip(natives, named_entry_pred(name), natives.len() as int);
    lemma_first_where_skip(scripts, script_pred(name, n), scripts.len() as int);
    lemma_first_where_skip(scripts, named_script_pred(name), scripts.len() as int);
    assert(natives.skip(natives.len() as int) =~= Seq::<FnEntry>::empty());
    assert(scripts.skip(scripts.len() as int) =~= Seq::<ScriptFnDef>::empty());
}

} // verus!
