use crate::ast::expr_views;
use crate::ast::stmt_views;
use crate::ast::Expr;
use crate::ast::ExprModel;
use crate::ast::Stmt;
use crate::ast::StmtModel;
use crate::dynamic::Dynamic;
use crate::dynamic::ValModel;
use vstd::prelude::*;
use vstd::string::StrSliceExecFns;

verus! {

// ---------------------------------------------------------------------------
// The script grammar, deliberately minimal: statements separated by `;`, a
// trailing `;` optional. A statement is `let name = expr` or `name(args)`;
// an expression is `true`, `false`, `()`, or a variable name; names are runs
// of `a`..`z`, `_` and digits, starting with a letter or `_`. `let`, `true`
// and `false` are keywords, not names. Richer literals reach a script through
// the scope or through a host-built [`crate::ast::Ast`].
//
// The spec functions below are the grammar's meaning: each takes the script
// text and a position and says what is parsed and where the parse continues,
// or at which position it stops. The executable parser is proved to return
// exactly that.
// ---------------------------------------------------------------------------
/// Whitespace: space, tab, line feed, carriage return.
pub open spec fn is_ws_char(c: char) -> bool {
    c == ' ' || c == '\t' || c == '\n' || c == '\r'
}

/// A decimal digit.
pub open spec fn is_digit_char(c: char) -> bool {
    48 <= c as u32 && c as u32 <= 57
}

/// A character that may start a name: `a`..`z` or `_`.
pub open spec fn is_ident_start_char(c: char) -> bool {
    (97 <= c as u32 && c as u32 <= 122) || c == '_'
}

/// A character that may continue a name.
pub open spec fn is_ident_char(c: char) -> bool {
    is_ident_start_char(c) || is_digit_char(c)
}

/// The first position at or after `i` holding a non-whitespace character.
pub open spec fn skip_ws_at(s: Seq<char>, i: int) -> int
    decreases s.len() - i,
{
    if 0 <= i < s.len() && is_ws_char(s[i]) {
        skip_ws_at(s, i + 1)
    } else {
        i
    }
}

/// The first position at or after `i` past a run of name characters.
pub open spec fn ident_end_at(s: Seq<char>, i: int) -> int
    decreases s.len() - i,
{
    if 0 <= i < s.len() && is_ident_char(s[i]) {
        ident_end_at(s, i + 1)
    } else {
        i
    }
}

/// What an expression starting at `i` parses to, and the position after it; or
/// the position where the parse stops.
pub open spec fn parse_expr_at(s: Seq<char>, i: int) -> Result<(ExprModel, int), int> {
    if 0 <= i < s.len() && is_ident_start_char(s[i]) {
        let e = ident_end_at(s, i);
        let w = s.subrange(i, e);
        if w == "true"@ {
            Ok((ExprModel::Lit(ValModel::Bool(true)), e))
        } else if w == "false"@ {
            Ok((ExprModel::Lit(ValModel::Bool(false)), e))
        } else {
            Ok((ExprModel::Var(w), e))
        }
    } else if 0 <= i && i + 1 < s.len() && s[i] == '(' && s[i + 1] == ')' {
        Ok((ExprModel::Lit(ValModel::Unit), i + 2))
    } else {
        Err(i)
    }
}

/// The argument expressions from `i` (positioned at an expression) up to and
/// including the closing parenthesis, and the position after it.
pub open spec fn parse_args_at(s: Seq<char>, i: int) -> Result<(Seq<ExprModel>, int), int>
    decreases s.len() - i,
{
    match parse_expr_at(s, i) {
        Err(p) => Err(p),
        Ok(ek) => {
            let j = skip_ws_at(s, ek.1);
            if 0 <= j < s.len() && s[j] == ')' {
                Ok((seq![ek.0], j + 1))
            } else if 0 <= j < s.len() && s[j] == ',' {
                let j2 = skip_ws_at(s, j + 1);
                if i < j2 && j2 <= s.len() {
                    match parse_args_at(s, j2) {
                        Err(p) => Err(p),
                        Ok(rest) => Ok((seq![ek.0] + rest.0, rest.1)),
                    }
                } else {
                    Err(j)
                }
            } else {
                Err(j)
            }
        },
    }
}

/// What a statement starting at `i` (not whitespace) parses to, and the
/// position after it.
pub open spec fn parse_stmt_at(s: Seq<char>, i: int) -> Result<(StmtModel, int), int> {
    if 0 <= i < s.len() && is_ident_start_char(s[i]) {
        let e = ident_end_at(s, i);
        let w = s.subrange(i, e);
        if w == "let"@ {
            let j = skip_ws_at(s, e);
            if 0 <= j < s.len() && is_ident_start_char(s[j]) {
                let e2 = ident_end_at(s, j);
                let name = s.subrange(j, e2);
                let j2 = skip_ws_at(s, e2);
                if 0 <= j2 < s.len() && s[j2] == '=' {
                    let j3 = skip_ws_at(s, j2 + 1);
                    match parse_expr_at(s, j3) {
                        Err(p) => Err(p),
                        Ok(ek) => Ok(((StmtModel::Bind { name, expr: ek.0 }), ek.1)),
                    }
                } else {
                    Err(j2)
                }
            } else {
                Err(j)
            }
        } else {
            let j = skip_ws_at(s, e);
            if 0 <= j < s.len() && s[j] == '(' {
                let j2 = skip_ws_at(s, j + 1);
                if 0 <= j2 < s.len() && s[j2] == ')' {
                    Ok(((StmtModel::FnCall { name: w, args: Seq::empty() }), j2 + 1))
                } else {
                    match parse_args_at(s, j2) {
                        Err(p) => Err(p),
                        Ok(ak) => Ok(((StmtModel::FnCall { name: w, args: ak.0 }), ak.1)),
                    }
                }
            } else {
                Err(j)
            }
        }
    } else {
        Err(i)
    }
}

/// The statements from `i` to the end of the script.
pub open spec fn parse_script_at(s: Seq<char>, i: int) -> Result<Seq<StmtModel>, int>
    decreases s.len() - i,
{
    let j = skip_ws_at(s, i);
    if j >= s.len() {
        Ok(Seq::empty())
    } else {
        match parse_stmt_at(s, j) {
            Err(p) => Err(p),
            Ok(sk) => {
                let k = skip_ws_at(s, sk.1);
                if k >= s.len() {
                    Ok(seq![sk.0])
                } else if s[k] == ';' && i < k + 1 && k + 1 <= s.len() {
                    match parse_script_at(s, k + 1) {
                        Err(p) => Err(p),
                        Ok(rest) => Ok(seq![sk.0] + rest),
                    }
                } else {
                    Err(k)
                }
            },
        }
    }
}

/// What a whole script parses to: its statements, or the position where
/// parsing stops.
pub open spec fn parse_script_model(s: Seq<char>) -> Result<Seq<StmtModel>, int> {
    parse_script_at(s, 0)
}

// ---------------------------------------------------------------------------
// The executable parser, each function proved equal to its spec twin.
// ---------------------------------------------------------------------------
/// Whether this character may start a name, computed.
fn is_ident_start(c: char) -> (b: bool)
    ensures
        b == is_ident_start_char(c),
{
    let u = c as u32;
    (97 <= u && u <= 122) || c == '_'
}

/// Whether this character may continue a name, computed.
fn is_ident_continue(c: char) -> (b: bool)
    ensures
        b == is_ident_char(c),
{
    let u = c as u32;
    is_ident_start(c) || (48 <= u && u <= 57)
}

/// Skips whitespace, computed.
fn skip_ws(s: &str, i: usize, n: usize) -> (r: usize)
    requires
        n == s@.len(),
        i <= n,
    ensures
        r as int == skip_ws_at(s@, i as int),
        i <= r <= n,
    decreases n - i,
{
    if i < n {
        let c = s.get_char(i);
        if c == ' ' || c == '\t' || c == '\n' || c == '\r' {
            skip_ws(s, i + 1, n)
        } else {
            i
        }
    } else {
        i
    }
}

/// Finds the end of a run of name characters, computed.
fn ident_end(s: &str, i: usize, n: usize) -> (r: usize)
    requires
        n == s@.len(),
        i <= n,
    ensures
        r as int == ident_end_at(s@, i as int),
        i <= r <= n,
    decreases n - i,
{
    if i < n {
        let c = s.get_char(i);
        if is_ident_continue(c) {
            ident_end(s, i + 1, n)
        } else {
            i
        }
    } else {
        i
    }
}

/// Parses one expression, computed.
fn parse_expr(s: &str, i: usize, n: usize) -> (r: Result<(Expr, usize), usize>)
    requires
        n == s@.len(),
        i <= n,
    ensures
        ({
            let m = parse_expr_at(s@, i as int);
            &&& r is Ok <==> m is Ok
            &&& r matches Ok((e, k)) ==> m matches Ok(mk) && e@ == mk.0 && k as int == mk.1 && k
                <= n
            &&& r matches Err(p) ==> m matches Err(q) && p as int == q
        }),
{
    if i < n && is_ident_start(s.get_char(i)) {
        let e = ident_end(s, i, n);
        let w = s.substring_char(i, e).to_owned();
        let kw_true: String = "true".to_owned();
        let kw_false: String = "false".to_owned();
        if w == kw_true {
            Ok((Expr::Lit(Dynamic::Bool(true)), e))
        } else if w == kw_false {
            Ok((Expr::Lit(Dynamic::Bool(false)), e))
        } else {
            Ok((Expr::Var(w), e))
        }
    } else if i < n && i + 1 < n && s.get_char(i) == '(' && s.get_char(i + 1) == ')' {
        Ok((Expr::Lit(Dynamic::Unit), i + 2))
    } else {
        Err(i)
    }
}

/// Parses the argument list up to the closing parenthesis, computed.
fn parse_args(s: &str, i: usize, n: usize) -> (r: Result<(Vec<Expr>, usize), usize>)
    requires
        n == s@.len(),
        i <= n,
    ensures
        ({
            let m = parse_args_at(s@, i as int);
            &&& r is Ok <==> m is Ok
            &&& r matches Ok((es, k)) ==> m matches Ok(mk) && expr_views(es@) == mk.0 && k as int
                == mk.1 && k <= n
            &&& r matches Err(p) ==> m matches Err(q) && p as int == q
        }),
    decreases n - i,
{
    match parse_expr(s, i, n) {
        Err(p) => Err(p),
        Ok((first, k)) => {
            let j = skip_ws(s, k, n);
            if j < n && s.get_char(j) == ')' {
                let mut es: Vec<Expr> = Vec::new();
                es.push(first);
                proof {
                    assert(expr_views(es@) =~= seq![es@[0]@]);
                }
                Ok((es, j + 1))
            } else if j < n && s.get_char(j) == ',' {
                let j2 = skip_ws(s, j + 1, n);
                if j2 > i {
                    match parse_args(s, j2, n) {
                        Err(p) => Err(p),
                        Ok((rest, k2)) => {
                            let mut es = rest;
                            es.insert(0, first);
                            proof {
                                assert(expr_views(es@) =~= seq![es@[0]@] + expr_views(
                                    es@.drop_first(),
                                ));
                                assert(es@.drop_first() =~= es@.subrange(1, es@.len() as int));
                            }
                            Ok((es, k2))
                        },
                    }
                } else {
                    Err(j)
                }
            } else {
                Err(j)
            }
        },
    }
}

/// Parses one statement, computed.
fn parse_stmt(s: &str, i: usize, n: usize) -> (r: Result<(Stmt, usize), usize>)
    requires
        n == s@.len(),
        i <= n,
    ensures
        ({
            let m = parse_stmt_at(s@, i as int);
            &&& r is Ok <==> m is Ok
            &&& r matches Ok((st, k)) ==> m matches Ok(mk) && st@ == mk.0 && k as int == mk.1 && k
                <= n
            &&& r matches Err(p) ==> m matches Err(q) && p as int == q
        }),
{
    if i < n && is_ident_start(s.get_char(i)) {
        let e = ident_end(s, i, n);
        let w = s.substring_char(i, e).to_owned();
        let kw_let: String = "let".to_owned();
        if w == kw_let {
            let j = skip_ws(s, e, n);
            if j < n && is_ident_start(s.get_char(j)) {
                let e2 = ident_end(s, j, n);
                let name = s.substring_char(j, e2).to_owned();
                let j2 = skip_ws(s, e2, n);
                if j2 < n && s.get_char(j2) == '=' {
                    let j3 = skip_ws(s, j2 + 1, n);
                    match parse_expr(s, j3, n) {
                        Err(p) => Err(p),
                        Ok((expr, k)) => Ok((Stmt::Bind { name, expr }, k)),
                    }
                } else {
                    Err(j2)
                }
            } else {
                Err(j)
            }
        } else {
            let j = skip_ws(s, e, n);
            if j < n && s.get_char(j) == '(' {
                let j2 = skip_ws(s, j + 1, n);
                if j2 < n && s.get_char(j2) == ')' {
                    let stmt = Stmt::FnCall { name: w, args: Vec::new() };
                    proof {
                        assert(expr_views(Seq::<Expr>::empty()) =~= Seq::<ExprModel>::empty());
                    }
                    Ok((stmt, j2 + 1))
                } else {
                    match parse_args(s, j2, n) {
                        Err(p) => Err(p),
                        Ok((args, k)) => Ok((Stmt::FnCall { name: w, args }, k)),
                    }
                }
            } else {
                Err(j)
            }
        }
    } else {
        Err(i)
    }
}

/// Parses the statements from `i` to the end of the script, computed.
fn parse_script_from(s: &str, i: usize, n: usize) -> (r: Result<Vec<Stmt>, usize>)
    requires
        n == s@.len(),
        i <= n,
    ensures
        ({
            let m = parse_script_at(s@, i as int);
            &&& r is Ok <==> m is Ok
            &&& r matches Ok(ss) ==> m matches Ok(mk) && stmt_views(ss@) == mk
            &&& r matches Err(p) ==> m matches Err(q) && p as int == q
        }),
    decreases n - i,
{
    let j = skip_ws(s, i, n);
    if j >= n {
        let ss: Vec<Stmt> = Vec::new();
        proof {
            assert(stmt_views(ss@) =~= Seq::<StmtModel>::empty());
        }
        Ok(ss)
    } else {
        match parse_stmt(s, j, n) {
            Err(p) => Err(p),
            Ok((stmt, after)) => {
                let k = skip_ws(s, after, n);
                if k >= n {
                    let mut ss: Vec<Stmt> = Vec::new();
                    ss.push(stmt);
                    proof {
                        assert(stmt_views(ss@) =~= seq![ss@[0]@]);
                    }
                    Ok(ss)
                } else if s.get_char(k) == ';' && k >= i {
                    match parse_script_from(s, k + 1, n) {
                        Err(p) => Err(p),
                        Ok(rest) => {
                            let mut ss = rest;
                            ss.insert(0, stmt);
                            proof {
                                assert(stmt_views(ss@) =~= seq![ss@[0]@] + stmt_views(
                                    ss@.drop_first(),
                                ));
                                assert(ss@.drop_first() =~= ss@.subrange(1, ss@.len() as int));
                            }
                            Ok(ss)
                        },
                    }
                } else {
                    Err(k)
                }
            },
        }
    }
}

/// Parses a whole script, computed: the statements, or the position where
/// parsing stops.
pub fn parse_script(s: &str) -> (r: Result<Vec<Stmt>, usize>)
    ensures
        ({
            let m = parse_script_model(s@);
            &&& r is Ok <==> m is Ok
            &&& r matches Ok(ss) ==> m matches Ok(mk) && stmt_views(ss@) == mk
            &&& r matches Err(p) ==> m matches Err(q) && p as int == q
        }),
{
    let n = s.unicode_len();
    parse_script_from(s, 0, n)
}

} // verus!
