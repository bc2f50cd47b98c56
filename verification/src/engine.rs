use crate::ast::expr_views;
use crate::ast::stmt_views;
use crate::ast::Ast;
use crate::ast::Expr;
use crate::ast::Stmt;
use crate::call::call_result_model;
use crate::call::first_where;
use crate::call::lemma_first_where_skip;
use crate::call::views_of;
use crate::call::FnEntry;
use crate::call::FnRegistry;
use crate::call::FnSig;
use crate::call::NativeCallContext;
use crate::call::NativeFn;
use crate::call::ScriptFnDef;
use crate::dynamic::Dynamic;
use crate::dynamic::ValModel;
use crate::error::ErrModel;
use crate::error::EvalAltResult;
use crate::parser::parse_script;
use crate::parser::parse_script_model;
use vstd::prelude::*;

verus! {

/// A named value visible to a running script.
pub struct Binding {
    pub name: String,
    pub value: Dynamic,
}

impl View for Binding {
    type V = (Seq<char>, ValModel);

    open spec fn view(&self) -> (Seq<char>, ValModel) {
        (self.name@, self.value@)
    }
}

/// The bindings of a sequence of entries.
pub open spec fn bindings_of(s: Seq<Binding>) -> Seq<(Seq<char>, ValModel)> {
    s.map_values(|b: Binding| b@)
}

/// The value bound to `name`, the most recent binding winning.
pub open spec fn lookup_binding(bs: Seq<(Seq<char>, ValModel)>, name: Seq<char>) -> Option<
    ValModel,
>
    decreases bs.len(),
{
    if bs.len() == 0 {
        None
    } else if bs.last().0 == name {
        Some(bs.last().1)
    } else {
        lookup_binding(bs.drop_last(), name)
    }
}

/// A variable-binding environment: the ordered bindings a script sees, a later
/// binding of a name shadowing an earlier one.
pub struct Scope {
    entries: Vec<Binding>,
}

impl View for Scope {
    type V = Seq<(Seq<char>, ValModel)>;

    closed spec fn view(&self) -> Seq<(Seq<char>, ValModel)> {
        bindings_of(self.entries@)
    }
}

impl Scope {
    /// An empty scope.
    pub fn new() -> (r: Scope)
        ensures
            r@ == Seq::<(Seq<char>, ValModel)>::empty(),
    {
        let r = Scope { entries: Vec::new() };
        proof {
            assert(r@ =~= Seq::<(Seq<char>, ValModel)>::empty());
        }
        r
    }

    /// Adds a binding; an existing binding of the same name is shadowed, not
    /// overwritten.
    pub fn push(&mut self, name: String, value: Dynamic)
        ensures
            final(self)@ == old(self)@.push((name@, value@)),
    {
        self.entries.push(Binding { name, value });
        proof {
            assert(final(self)@ =~= old(self)@.push(
                (final(self).entries@.last().name@, final(self).entries@.last().value@),
            ));
        }
    }

    /// The value bound to a name, as a copy, or `None` when the name is
    /// unbound.
    pub fn get_value(&self, name: &String) -> (r: Option<Dynamic>)
        ensures
            r is Some <==> lookup_binding(self@, name@) is Some,
            r matches Some(d) ==> lookup_binding(self@, name@) == Some(d@),
    {
        let n = self.entries.len();
        let mut i: usize = n;
        while i > 0
            invariant
                0 <= i <= n,
                n == self.entries@.len(),
                forall|j: int| i <= j < n ==> (#[trigger] self.entries@[j]).name@ != name@,
            decreases i,
        {
            i = i - 1;
            if self.entries[i].name == *name {
                proof {
                    lemma_lookup_found(self@, name@, i as int);
                }
                return Some(self.entries[i].value.clone_value());
            }
        }
        proof {
            lemma_lookup_none(self@, name@);
        }
        None
    }
}

/// When everything at or after index `k` misses and index `k` hits, the lookup
/// finds the binding at `k`.
proof fn lemma_lookup_found(bs: Seq<(Seq<char>, ValModel)>, name: Seq<char>, k: int)
    requires
        0 <= k < bs.len(),
        bs[k].0 == name,
        forall|j: int| k < j < bs.len() ==> (#[trigger] bs[j]).0 != name,
    ensures
        lookup_binding(bs, name) == Some(bs[k].1),
    decreases bs.len(),
{
    if k + 1 == bs.len() {
    } else {
        assert(bs.drop_last()[k] == bs[k]);
        lemma_lookup_found(bs.drop_last(), name, k);
    }
}

/// When no binding carries the name, the lookup misses.
proof fn lemma_lookup_none(bs: Seq<(Seq<char>, ValModel)>, name: Seq<char>)
    requires
        forall|j: int| 0 <= j < bs.len() ==> (#[trigger] bs[j]).0 != name,
    ensures
        lookup_binding(bs, name) is None,
    decreases bs.len(),
{
    if bs.len() > 0 {
        lemma_lookup_none(bs.drop_last(), name);
    }
}

/// What an expression evaluates to under the given bindings.
pub open spec fn eval_expr_model(bs: Seq<(Seq<char>, ValModel)>, e: Expr) -> Result<
    ValModel,
    ErrModel,
> {
    match e {
        Expr::Lit(d) => Ok(d@),
        Expr::Var(n) => match lookup_binding(bs, n@) {
            Some(v) => Ok(v),
            None => Err(ErrModel::VariableNotFound { name: n@ }),
        },
    }
}

/// The predicate picking the first argument expression that fails to evaluate.
pub open spec fn arg_fails_pred(bs: Seq<(Seq<char>, ValModel)>) -> spec_fn(Expr) -> bool {
    |e: Expr| eval_expr_model(bs, e) is Err
}

/// What an argument list evaluates to: the values, in order, or the error of
/// the first expression that fails.
pub open spec fn eval_args_model(bs: Seq<(Seq<char>, ValModel)>, es: Seq<Expr>) -> Result<
    Seq<ValModel>,
    ErrModel,
> {
    match first_where(es, arg_fails_pred(bs)) {
        Some(e) => Err(eval_expr_model(bs, e)->Err_0),
        None => Ok(es.map_values(|e2: Expr| eval_expr_model(bs, e2)->Ok_0)),
    }
}

/// What one statement does to the bindings. A call's result is discarded; a
/// binding statement adds what its expression evaluates to.
pub open spec fn stmt_step_model(
    natives: Seq<FnEntry>,
    scripts: Seq<ScriptFnDef>,
    bs: Seq<(Seq<char>, ValModel)>,
    s: Stmt,
) -> Result<Seq<(Seq<char>, ValModel)>, ErrModel> {
    match s {
        Stmt::FnCall { name, args } => match eval_args_model(bs, args@) {
            Err(e) => Err(e),
            Ok(vs) => match call_result_model(natives, scripts, name@, vs) {
                Err(e) => Err(e),
                Ok(_) => Ok(bs),
            },
        },
        Stmt::Bind { name, expr } => match eval_expr_model(bs, expr) {
            Err(e) => Err(e),
            Ok(v) => Ok(bs.push((name@, v))),
        },
    }
}

/// What a statement sequence does: statements run in order and the first error
/// stops the run, leaving the bindings made before the failing statement.
pub open spec fn run_stmts_model(
    natives: Seq<FnEntry>,
    scripts: Seq<ScriptFnDef>,
    bs: Seq<(Seq<char>, ValModel)>,
    ss: Seq<Stmt>,
) -> (Result<(), ErrModel>, Seq<(Seq<char>, ValModel)>)
    decreases ss.len(),
{
    if ss.len() == 0 {
        (Ok(()), bs)
    } else {
        match stmt_step_model(natives, scripts, bs, ss[0]) {
            Err(e) => (Err(e), bs),
            Ok(bs2) => run_stmts_model(natives, scripts, bs2, ss.drop_first()),
        }
    }
}

/// The scripting engine: it owns the function registry and executes parsed
/// scripts against it.
pub struct Engine {
    registry: FnRegistry,
}

impl Engine {
    /// The native entries the engine resolves against.
    pub closed spec fn natives(&self) -> Seq<FnEntry> {
        self.registry.natives()
    }

    /// The script-defined entries the engine resolves against.
    pub closed spec fn scripts(&self) -> Seq<ScriptFnDef> {
        self.registry.scripts()
    }

    /// The engine's registry is well formed.
    pub closed spec fn wf(&self) -> bool {
        self.registry.wf()
    }

    /// An engine with an empty registry.
    pub fn new() -> (r: Engine)
        ensures
            r.wf(),
            r.natives() == Seq::<FnEntry>::empty(),
            r.scripts() == Seq::<ScriptFnDef>::empty(),
    {
        Engine { registry: FnRegistry::new() }
    }

    /// Read access to the registry, to build a call context over it.
    pub fn registry(&self) -> (r: &FnRegistry)
        ensures
            r.natives() == self.natives(),
            r.scripts() == self.scripts(),
            r.wf() == self.wf(),
    {
        &self.registry
    }

    /// Registers a native function; see [`FnRegistry::register_native`].
    pub fn register_native(&mut self, name: String, sig: FnSig, func: NativeFn) -> (ok: bool)
        requires
            old(self).wf(),
        ensures
            final(self).wf(),
            ok == (crate::call::sig_arity(sig) == crate::call::native_arity(func)),
            ok ==> final(self).natives() == old(self).natives().push(
                (FnEntry { name: name, sig: sig, func: func }),
            ),
            !ok ==> final(self).natives() == old(self).natives(),
            final(self).scripts() == old(self).scripts(),
    {
        self.registry.register_native(name, sig, func)
    }

    /// Registers a script-defined function; see
    /// [`FnRegistry::register_script_fn`].
    pub fn register_script_fn(&mut self, def: ScriptFnDef)
        requires
            old(self).wf(),
        ensures
            final(self).wf(),
            final(self).scripts() == old(self).scripts().push(def),
            final(self).natives() == old(self).natives(),
    {
        self.registry.register_script_fn(def)
    }

    /// Turns script text into a parsed [`Ast`]; a script that does not fit the
    /// grammar is rejected with the position where parsing stopped.
    pub fn compile(&self, script: &str) -> (r: Result<Ast, Box<EvalAltResult>>)
        ensures
            ({
                let m = parse_script_model(script@);
                &&& r is Ok <==> m is Ok
                &&& r matches Ok(ast) ==> m matches Ok(mk) && stmt_views(ast.stmts@) == mk
                &&& r matches Err(e) ==> m matches Err(p) && e@ == (ErrModel::Parsing { at: p })
            }),
    {
        match parse_script(script) {
            Ok(stmts) => Ok(Ast::new(stmts)),
            Err(p) => Err(Box::new(EvalAltResult::ErrorParsing(p))),
        }
    }

    /// Compiles and runs a script against a caller-owned scope, discarding
    /// every result; only an error is reported. On a parse error the scope is
    /// untouched; otherwise the run behaves as [`Engine::run_ast_with_scope`]
    /// on the parsed statements.
    pub fn run_with_scope(&self, scope: &mut Scope, script: &str) -> (r: Result<
        (),
        Box<EvalAltResult>,
    >)
        requires
            self.wf(),
        ensures
            ({
                let m = parse_script_model(script@);
                &&& m matches Err(p) ==> r is Err && r->Err_0@ == (ErrModel::Parsing { at: p })
                    && final(scope)@ == old(scope)@
                &&& m is Ok ==> exists|stmts: Seq<Stmt>|
                    {
                        let res = run_stmts_model(
                            self.natives(),
                            self.scripts(),
                            old(scope)@,
                            stmts,
                        );
                        &&& #[trigger] stmt_views(stmts) == m->Ok_0
                        &&& r is Ok <==> res.0 is Ok
                        &&& r is Err ==> r->Err_0@ == res.0->Err_0
                        &&& final(scope)@ == res.1
                    }
            }),
    {
        let ast = match self.compile(script) {
            Ok(ast) => ast,
            Err(e) => {
                return Err(e);
            },
        };
        let r = self.run_ast_with_scope(scope, &ast);
        proof {
            assert(stmt_views(ast.stmts@) == parse_script_model(script@)->Ok_0);
        }
        r
    }

    /// Compiles and runs a script in a fresh, empty scope, discarding every
    /// result; only an error is reported.
    pub fn run(&self, script: &str) -> (r: Result<(), Box<EvalAltResult>>)
        requires
            self.wf(),
        ensures
            ({
                let m = parse_script_model(script@);
                &&& m matches Err(p) ==> r is Err && r->Err_0@ == (ErrModel::Parsing { at: p })
                &&& m is Ok ==> exists|stmts: Seq<Stmt>|
                    {
                        let res = run_stmts_model(
                            self.natives(),
                            self.scripts(),
                            Seq::empty(),
                            stmts,
                        );
                        &&& #[trigger] stmt_views(stmts) == m->Ok_0
                        &&& r is Ok <==> res.0 is Ok
                        &&& r is Err ==> r->Err_0@ == res.0->Err_0
                    }
            }),
    {
        let mut scope = Scope::new();
        self.run_with_scope(&mut scope, script)
    }

    /// Deprecated alias of [`Engine::run`]; it forwards unchanged and returns
    /// exactly what its replacement returns.
    pub fn consume(&self, script: &str) -> (r: Result<(), Box<EvalAltResult>>)
        requires
            self.wf(),
        ensures
            ({
                let m = parse_script_model(script@);
                &&& m matches Err(p) ==> r is Err && r->Err_0@ == (ErrModel::Parsing { at: p })
                &&& m is Ok ==> exists|stmts: Seq<Stmt>|
                    {
                        let res = run_stmts_model(
                            self.natives(),
                            self.scripts(),
                            Seq::empty(),
                            stmts,
                        );
                        &&& #[trigger] stmt_views(stmts) == m->Ok_0
                        &&& r is Ok <==> res.0 is Ok
                        &&& r is Err ==> r->Err_0@ == res.0->Err_0
                    }
            }),
    {
        self.run(script)
    }

    /// Deprecated alias of [`Engine::run_with_scope`]; it forwards unchanged
    /// and returns exactly what its replacement returns.
    pub fn consume_with_scope(&self, scope: &mut Scope, script: &str) -> (r: Result<
        (),
        Box<EvalAltResult>,
    >)
        requires
            self.wf(),
        ensures
            ({
                let m = parse_script_model(script@);
                &&& m matches Err(p) ==> r is Err && r->Err_0@ == (ErrModel::Parsing { at: p })
                    && final(scope)@ == old(scope)@
                &&& m is Ok ==> exists|stmts: Seq<Stmt>|
                    {
                        let res = run_stmts_model(
                            self.natives(),
                            self.scripts(),
                            old(scope)@,
                            stmts,
                        );
                        &&& #[trigger] stmt_views(stmts) == m->Ok_0
                        &&& r is Ok <==> res.0 is Ok
                        &&& r is Err ==> r->Err_0@ == res.0->Err_0
                        &&& final(scope)@ == res.1
                    }
            }),
    {
        self.run_with_scope(scope, script)
    }

    /// Evaluates one expression against a scope, copying the value out.
    fn eval_expr(&self, scope: &Scope, e: &Expr) -> (r: Result<Dynamic, Box<EvalAltResult>>)
        ensures
            ({
                let res = eval_expr_model(scope@, *e);
                &&& r is Ok <==> res is Ok
                &&& r is Ok ==> r->Ok_0@ == res->Ok_0
                &&& r is Err ==> r->Err_0@ == res->Err_0
            }),
    {
        match e {
            Expr::Lit(d) => Ok(d.clone_value()),
            Expr::Var(n) => match scope.get_value(n) {
                Some(d) => Ok(d),
                None => Err(Box::new(EvalAltResult::ErrorVariableNotFound(n.clone()))),
            },
        }
    }

    /// Evaluates an argument list, left to right, stopping at the first error.
    fn eval_args(&self, scope: &Scope, es: &Vec<Expr>) -> (r: Result<
        Vec<Dynamic>,
        Box<EvalAltResult>,
    >)
        ensures
            ({
                let res = eval_args_model(scope@, es@);
                &&& r is Ok <==> res is Ok
                &&& r is Ok ==> views_of(r->Ok_0@) == res->Ok_0
                &&& r is Err ==> r->Err_0@ == res->Err_0
            }),
    {
        let n = es.len();
        let mut vals: Vec<Dynamic> = Vec::new();
        let mut i: usize = 0;
        while i < n
            invariant
                0 <= i <= n,
                n == es@.len(),
                vals@.len() == i,
                forall|k: int| 0 <= k < i ==> !arg_fails_pred(scope@)(#[trigger] es@[k]),
                forall|k: int|
                    0 <= k < i ==> (#[trigger] vals@[k])@ == eval_expr_model(scope@, es@[k])->Ok_0,
            decreases n - i,
        {
            match self.eval_expr(scope, &es[i]) {
                Ok(d) => {
                    vals.push(d);
                },
                Err(e) => {
                    proof {
                        assert(arg_fails_pred(scope@)(es@[i as int]));
                        lemma_first_where_skip(es@, arg_fails_pred(scope@), i as int);
                        assert(es@.skip(i as int)[0] == es@[i as int]);
                    }
                    return Err(e);
                },
            }
            i += 1;
        }
        proof {
            lemma_first_where_skip(es@, arg_fails_pred(scope@), n as int);
            assert(es@.skip(n as int) =~= Seq::<Expr>::empty());
            assert(views_of(vals@) =~= es@.map_values(
                |e2: Expr| eval_expr_model(scope@, e2)->Ok_0,
            ));
        }
        Ok(vals)
    }

    /// Runs a parsed script against a caller-owned scope. Statements run in
    /// order; the first error stops the run and is returned, and the scope
    /// keeps exactly the bindings made before the failing statement. Each
    /// call's result is discarded; only errors are reported.
    pub fn run_ast_with_scope(&self, scope: &mut Scope, ast: &Ast) -> (r: Result<
        (),
        Box<EvalAltResult>,
    >)
        requires
            self.wf(),
        ensures
            ({
                let res = run_stmts_model(self.natives(), self.scripts(), old(scope)@, ast.stmts@);
                &&& r is Ok <==> res.0 is Ok
                &&& r is Err ==> r->Err_0@ == res.0->Err_0
                &&& final(scope)@ == res.1
            }),
    {
        let n = ast.stmts.len();
        proof {
            assert(ast.stmts@.skip(0) =~= ast.stmts@);
        }
        let mut i: usize = 0;
        while i < n
            invariant
                0 <= i <= n,
                n == ast.stmts@.len(),
                self.wf(),
                run_stmts_model(self.natives(), self.scripts(), old(scope)@, ast.stmts@)
                    == run_stmts_model(
                    self.natives(),
                    self.scripts(),
                    scope@,
                    ast.stmts@.skip(i as int),
                ),
            decreases n - i,
        {
            let ghost pre = scope@;
            let stmt = &ast.stmts[i];
            match stmt {
                Stmt::FnCall { name, args } => {
                    let mut vals = match self.eval_args(scope, args) {
                        Ok(vals) => vals,
                        Err(e) => {
                            proof {
                                lemma_run_stmts_err(
                                    self.natives(),
                                    self.scripts(),
                                    scope@,
                                    ast.stmts@.skip(i as int),
                                );
                            }
                            return Err(e);
                        },
                    };
                    let ctx = NativeCallContext::new(&self.registry);
                    match ctx.call_fn_raw(name.as_str(), false, false, &mut vals) {
                        Ok(_) => (),
                        Err(e) => {
                            proof {
                                lemma_run_stmts_err(
                                    self.natives(),
                                    self.scripts(),
                                    scope@,
                                    ast.stmts@.skip(i as int),
                                );
                            }
                            return Err(e);
                        },
                    }
                },
                Stmt::Bind { name, expr } => {
                    match self.eval_expr(scope, expr) {
                        Ok(d) => {
                            scope.push(name.clone(), d);
                        },
                        Err(e) => {
                            proof {
                                lemma_run_stmts_err(
                                    self.natives(),
                                    self.scripts(),
                                    scope@,
                                    ast.stmts@.skip(i as int),
                                );
                            }
                            return Err(e);
                        },
                    }
                },
            }
            proof {
                assert(ast.stmts@.skip(i as int)[0] == ast.stmts@[i as int]);
                assert(stmt_step_model(self.natives(), self.scripts(), pre, ast.stmts@[i as int])
                    == Ok::<_, ErrModel>(scope@));
                assert(ast.stmts@.skip(i as int).drop_first() =~= ast.stmts@.skip(i as int + 1));
            }
            i += 1;
        }
        proof {
            assert(ast.stmts@.skip(n as int) =~= Seq::<Stmt>::empty());
        }
        Ok(())
    }

    /// Runs a parsed script in a fresh, empty scope, discarding every result;
    /// only an error is reported.
    pub fn run_ast(&self, ast: &Ast) -> (r: Result<(), Box<EvalAltResult>>)
        requires
            self.wf(),
        ensures
            ({
                let res = run_stmts_model(
                    self.natives(),
                    self.scripts(),
                    Seq::empty(),
                    ast.stmts@,
                );
                &&& r is Ok <==> res.0 is Ok
                &&& r is Err ==> r->Err_0@ == res.0->Err_0
            }),
    {
        let mut scope = Scope::new();
        self.run_ast_with_scope(&mut scope, ast)
    }

    /// Deprecated alias of [`Engine::run_ast`]; it forwards unchanged and
    /// returns exactly what its replacement returns.
    pub fn consume_ast(&self, ast: &Ast) -> (r: Result<(), Box<EvalAltResult>>)
        requires
            self.wf(),
        ensures
            ({
                let res = run_stmts_model(
                    self.natives(),
                    self.scripts(),
                    Seq::empty(),
                    ast.stmts@,
                );
                &&& r is Ok <==> res.0 is Ok
                &&& r is Err ==> r->Err_0@ == res.0->Err_0
            }),
    {
        self.run_ast(ast)
    }

    /// Deprecated alias of [`Engine::run_ast_with_scope`]; it forwards
    /// unchanged and returns exactly what its replacement returns.
    pub fn consume_ast_with_scope(&self, scope: &mut Scope, ast: &Ast) -> (r: Result<
        (),
        Box<EvalAltResult>,
    >)
        requires
            self.wf(),
        ensures
            ({
                let res = run_stmts_model(self.natives(), self.scripts(), old(scope)@, ast.stmts@);
                &&& r is Ok <==> res.0 is Ok
                &&& r is Err ==> r->Err_0@ == res.0->Err_0
                &&& final(scope)@ == res.1
            }),
    {
        self.run_ast_with_scope(scope, ast)
    }
}

/// A failing first statement fails the whole sequence, leaving the bindings.
proof fn lemma_run_stmts_err(
    natives: Seq<FnEntry>,
    scripts: Seq<ScriptFnDef>,
    bs: Seq<(Seq<char>, ValModel)>,
    ss: Seq<Stmt>,
)
    requires
        ss.len() > 0,
        stmt_step_model(natives, scripts, bs, ss[0]) is Err,
    ensures
        run_stmts_model(natives, scripts, bs, ss) == (
            (
                Err::<(), ErrModel>(stmt_step_model(natives, scripts, bs, ss[0])->Err_0),
                bs,
            )
        ),
{
}

/// Two expressions with one view evaluate alike.
proof fn lemma_eval_expr_congruence(bs: Seq<(Seq<char>, ValModel)>, e1: Expr, e2: Expr)
    requires
        e1@ == e2@,
    ensures
        eval_expr_model(bs, e1) == eval_expr_model(bs, e2),
{
    match e1 {
        Expr::Lit(_) => {
            assert(e2 is Lit);
        },
        Expr::Var(_) => {
            assert(e2 is Var);
        },
    }
}

/// Two argument lists with one view sequence evaluate alike.
proof fn lemma_eval_args_congruence(bs: Seq<(Seq<char>, ValModel)>, es1: Seq<Expr>, es2: Seq<Expr>)
    requires
        expr_views(es1) == expr_views(es2),
    ensures
        eval_args_model(bs, es1) == eval_args_model(bs, es2),
    decreases es1.len(),
{
    assert(expr_views(es1).len() == es1.len());
    assert(expr_views(es2).len() == es2.len());
    if es1.len() == 0 {
        assert(es1 =~= Seq::<Expr>::empty());
        assert(es2 =~= Seq::<Expr>::empty());
    } else {
        assert(es1[0]@ == expr_views(es1)[0]);
        assert(es2[0]@ == expr_views(es2)[0]);
        lemma_eval_expr_congruence(bs, es1[0], es2[0]);
        assert forall|i: int| 0 <= i < es1.len() - 1 implies expr_views(es1.drop_first())[i]
            == expr_views(es2.drop_first())[i] by {
            assert(es1.drop_first()[i] == es1[i + 1]);
            assert(es2.drop_first()[i] == es2[i + 1]);
            assert(expr_views(es1.drop_first())[i] == es1.drop_first()[i]@);
            assert(expr_views(es2.drop_first())[i] == es2.drop_first()[i]@);
            assert(expr_views(es1)[i + 1] == es1[i + 1]@);
            assert(expr_views(es2)[i + 1] == es2[i + 1]@);
            assert(expr_views(es1)[i + 1] == expr_views(es2)[i + 1]);
        }
        assert(expr_views(es1.drop_first()) =~= expr_views(es2.drop_first()));
        lemma_eval_args_congruence(bs, es1.drop_first(), es2.drop_first());
        let p = arg_fails_pred(bs);
        assert(p(es1[0]) == p(es2[0]));
        if p(es1[0]) {
            assert(first_where(es1, p) == Some(es1[0]));
            assert(first_where(es2, p) == Some(es2[0]));
        } else {
            assert(first_where(es1, p) == first_where(es1.drop_first(), p));
            assert(first_where(es2, p) == first_where(es2.drop_first(), p));
            if first_where(es1.drop_first(), p) is None {
                assert forall|i: int| 0 <= i < es1.len() implies eval_expr_model(
                    bs,
                    es1[i],
                )->Ok_0 == eval_expr_model(bs, es2[i])->Ok_0 by {
                    assert(es1[i]@ == expr_views(es1)[i]);
                    assert(es2[i]@ == expr_views(es2)[i]);
                    lemma_eval_expr_congruence(bs, es1[i], es2[i]);
                }
                assert(es1.map_values(|e2: Expr| eval_expr_model(bs, e2)->Ok_0) =~= es2.map_values(
                    |e2: Expr| eval_expr_model(bs, e2)->Ok_0,
                ));
            }
        }
    }
}

/// Two statements with one view step alike.
proof fn lemma_stmt_step_congruence(
    natives: Seq<FnEntry>,
    scripts: Seq<ScriptFnDef>,
    bs: Seq<(Seq<char>, ValModel)>,
    s1: Stmt,
    s2: Stmt,
)
    requires
        s1@ == s2@,
    ensures
        stmt_step_model(natives, scripts, bs, s1) == stmt_step_model(natives, scripts, bs, s2),
{
    match s1 {
        Stmt::FnCall { .. } => {
            assert(s2 is FnCall);
            lemma_eval_args_congruence(bs, s1->FnCall_args@, s2->FnCall_args@);
        },
        Stmt::Bind { .. } => {
            assert(s2 is Bind);
            lemma_eval_expr_congruence(bs, s1->Bind_expr, s2->Bind_expr);
        },
    }
}

/// A statement sequence runs by the content of its statements alone: two
/// sequences with the same views run alike, from any bindings. With this, the
/// contracts of [`Engine::run`] and [`Engine::run_with_scope`] pin one
/// behavior: every parse of the script they quantify over runs the same way.
pub proof fn lemma_run_depends_on_views(
    natives: Seq<FnEntry>,
    scripts: Seq<ScriptFnDef>,
    bs: Seq<(Seq<char>, ValModel)>,
    ss1: Seq<Stmt>,
    ss2: Seq<Stmt>,
)
    requires
        stmt_views(ss1) == stmt_views(ss2),
    ensures
        run_stmts_model(natives, scripts, bs, ss1) == run_stmts_model(natives, scripts, bs, ss2),
    decreases ss1.len(),
{
    assert(stmt_views(ss1).len() == ss1.len());
    assert(stmt_views(ss2).len() == ss2.len());
    if ss1.len() > 0 {
        assert(ss1[0]@ == stmt_views(ss1)[0]);
        assert(ss2[0]@ == stmt_views(ss2)[0]);
        lemma_stmt_step_congruence(natives, scripts, bs, ss1[0], ss2[0]);
        assert forall|i: int| 0 <= i < ss1.len() - 1 implies stmt_views(ss1.drop_first())[i]
            == stmt_views(ss2.drop_first())[i] by {
            assert(ss1.drop_first()[i] == ss1[i + 1]);
            assert(ss2.drop_first()[i] == ss2[i + 1]);
            assert(stmt_views(ss1.drop_first())[i] == ss1.drop_first()[i]@);
            assert(stmt_views(ss2.drop_first())[i] == ss2.drop_first()[i]@);
            assert(stmt_views(ss1)[i + 1] == ss1[i + 1]@);
            assert(stmt_views(ss2)[i + 1] == ss2[i + 1]@);
            assert(stmt_views(ss1)[i + 1] == stmt_views(ss2)[i + 1]);
        }
        assert(stmt_views(ss1.drop_first()) =~= stmt_views(ss2.drop_first()));
        match stmt_step_model(natives, scripts, bs, ss1[0]) {
            Err(_) => {},
            Ok(bs2) => {
                lemma_run_depends_on_views(
                    natives,
                    scripts,
                    bs2,
                    ss1.drop_first(),
                    ss2.drop_first(),
                );
            },
        }
    }
}

} // verus!
