use vstd::prelude::*;
use crate::error::{ResolveErrorKind, RloxError};
use crate::expr::{Expr, ExprList, NameList, Stmt, StmtList};
use crate::interpreter::{with_entries, Interpreter, State};

verus! {

/// Whether resolution is inside a function body.
#[derive(Clone, Copy, Debug, PartialEq, Eq, Structural)]
pub enum FunctionType {
    TopLevel,
    Function,
}

/// The static pass that gives each local variable occurrence the number
/// of scopes between it and its declaration.
pub struct Resolver {
    pub interpreter: Interpreter,
    /// Innermost scope last; each entry is a name and whether its
    /// initializer has run.
    pub scopes: Vec<Vec<(String, bool)>>,
    pub current_function: FunctionType,
    /// Reference id and depth, in the order they were found.
    pub depth_map: Vec<(usize, usize)>,
}

/// The model of the resolver's own state.
pub struct Resolution {
    pub scopes: Seq<Seq<(Seq<char>, bool)>>,
    pub in_function: bool,
    pub depths: Seq<(usize, usize)>,
}

pub open spec fn scope_view(v: Vec<(String, bool)>) -> Seq<(Seq<char>, bool)> {
    v@.map_values(|p: (String, bool)| (p.0@, p.1))
}

pub open spec fn scopes_view(v: Seq<Vec<(String, bool)>>) -> Seq<Seq<(Seq<char>, bool)>> {
    v.map_values(|s: Vec<(String, bool)>| scope_view(s))
}

impl View for Resolver {
    type V = Resolution;

    open spec fn view(&self) -> Resolution {
        Resolution {
            scopes: scopes_view(self.scopes@),
            in_function: self.current_function == FunctionType::Function,
            depths: self.depth_map@,
        }
    }
}

/// The index of the first entry for `name` at or after `i`.
pub open spec fn find_name(scope: Seq<(Seq<char>, bool)>, name: Seq<char>, i: int) -> Option<int>
    decreases scope.len() - i,
{
    if i < 0 || i >= scope.len() {
        None
    } else if scope[i].0 == name {
        Some(i)
    } else {
        find_name(scope, name, i + 1)
    }
}

pub proof fn lemma_find_name(scope: Seq<(Seq<char>, bool)>, name: Seq<char>, i: int)
    ensures
        match find_name(scope, name, i) {
            Some(j) => 0 <= i <= j < scope.len() && scope[j].0 == name,
            None => forall|k: int| 0 <= i <= k < scope.len() ==> scope[k].0 != name,
        },
    decreases scope.len() - i,
{
    if 0 <= i < scope.len() && scope[i].0 != name {
        lemma_find_name(scope, name, i + 1);
    }
}

/// The innermost scope with `name` entered with the given state.
pub open spec fn mark(rs: Resolution, name: Seq<char>, defined: bool) -> Resolution {
    if rs.scopes.len() == 0 {
        rs
    } else {
        let k = rs.scopes.len() - 1;
        let scope = rs.scopes[k];
        let updated = match find_name(scope, name, 0) {
            Some(j) => scope.update(j, (name, defined)),
            None => scope.push((name, defined)),
        };
        Resolution { scopes: rs.scopes.update(k, updated), ..rs }
    }
}

pub open spec fn push_scope(rs: Resolution) -> Resolution {
    Resolution { scopes: rs.scopes.push(Seq::empty()), ..rs }
}

pub open spec fn pop_scope(rs: Resolution) -> Resolution {
    if rs.scopes.len() > 0 {
        Resolution { scopes: rs.scopes.drop_last(), ..rs }
    } else {
        rs
    }
}

/// The distance from the innermost scope to the scope at index `i` or
/// below it that holds `name`, searching outward from `i`.
pub open spec fn depth_from(scopes: Seq<Seq<(Seq<char>, bool)>>, name: Seq<char>, i: int) -> Option<nat>
    decreases i + 1,
{
    if i < 0 || i >= scopes.len() {
        None
    } else if find_name(scopes[i], name, 0) is Some {
        Some((scopes.len() - 1 - i) as nat)
    } else {
        depth_from(scopes, name, i - 1)
    }
}

/// The number of scopes between the innermost one and the nearest one
/// that holds `name`.
pub open spec fn nearest_depth(scopes: Seq<Seq<(Seq<char>, bool)>>, name: Seq<char>) -> Option<nat> {
    depth_from(scopes, name, scopes.len() - 1)
}

/// Records the depth of an occurrence when some scope holds its name;
/// otherwise the name is left to the globals.
pub open spec fn record(rs: Resolution, id: usize, name: Seq<char>) -> Resolution {
    match nearest_depth(rs.scopes, name) {
        Some(d) => Resolution { depths: rs.depths.push((id, d as usize)), ..rs },
        None => rs,
    }
}

/// `name` is declared in the innermost scope and its initializer has not
/// run yet.
pub open spec fn declared_not_defined(rs: Resolution, name: Seq<char>) -> bool {
    rs.scopes.len() > 0 && match find_name(rs.scopes.last(), name, 0) {
        Some(j) => !rs.scopes.last()[j].1,
        None => false,
    }
}

pub open spec fn resolve_error(kind: ResolveErrorKind, name: Option<String>) -> RloxError {
    RloxError::ResolveError { kind, name }
}

pub open spec fn resolve_expr(rs: Resolution, e: Expr) -> Result<Resolution, RloxError>
    decreases e,
{
    match e {
        Expr::Binary { left, right, .. } => match resolve_expr(rs, *left) {
            Ok(r1) => resolve_expr(r1, *right),
            Err(err) => Err(err),
        },
        Expr::Logical { left, right, .. } => match resolve_expr(rs, *left) {
            Ok(r1) => resolve_expr(r1, *right),
            Err(err) => Err(err),
        },
        Expr::Call { callee, arguments } => match resolve_expr(rs, *callee) {
            Ok(r1) => resolve_exprs(r1, arguments),
            Err(err) => Err(err),
        },
        Expr::Grouping { expression } => resolve_expr(rs, *expression),
        Expr::Unary { right, .. } => resolve_expr(rs, *right),
        Expr::Variable { id, name } => if declared_not_defined(rs, name@) {
            Err(resolve_error(ResolveErrorKind::OwnInitializer, Some(name)))
        } else {
            Ok(record(rs, id, name@))
        },
        Expr::Assign { id, name, value } => match resolve_expr(rs, *value) {
            Ok(r1) => Ok(record(r1, id, name@)),
            Err(err) => Err(err),
        },
        _ => Ok(rs),
    }
}

pub open spec fn resolve_exprs(rs: Resolution, l: ExprList) -> Result<Resolution, RloxError>
    decreases l,
{
    match l {
        ExprList::Empty => Ok(rs),
        ExprList::Cons(h, t) => match resolve_expr(rs, *h) {
            Ok(r1) => resolve_exprs(r1, *t),
            Err(err) => Err(err),
        },
    }
}

/// Each parameter declared and defined, in order.
pub open spec fn mark_parameters(rs: Resolution, params: NameList) -> Resolution
    decreases params,
{
    match params {
        NameList::Empty => rs,
        NameList::Cons(h, t) => mark_parameters(mark(mark(rs, h@, false), h@, true), *t),
    }
}

pub open spec fn resolve_stmt(rs: Resolution, s: Stmt) -> Result<Resolution, RloxError>
    decreases s,
{
    match s {
        Stmt::Block { statements } => match resolve_stmts(push_scope(rs), statements) {
            Ok(r1) => Ok(pop_scope(r1)),
            Err(err) => Err(err),
        },
        Stmt::Expression { expression } => resolve_expr(rs, expression),
        Stmt::Print { expression } => resolve_expr(rs, expression),
        Stmt::Var { name, initializer } => {
            let r1 = mark(rs, name@, false);
            match initializer {
                Some(e) => match resolve_expr(r1, e) {
                    Ok(r2) => Ok(mark(r2, name@, true)),
                    Err(err) => Err(err),
                },
                None => Ok(mark(r1, name@, true)),
            }
        },
        Stmt::If { condition, then_branch, else_branch } => match resolve_expr(rs, condition) {
            Ok(r1) => match resolve_stmt(r1, *then_branch) {
                Ok(r2) => match else_branch {
                    Some(b) => resolve_stmt(r2, *b),
                    None => Ok(r2),
                },
                Err(err) => Err(err),
            },
            Err(err) => Err(err),
        },
        Stmt::While { condition, body } => match resolve_expr(rs, condition) {
            Ok(r1) => resolve_stmt(r1, *body),
            Err(err) => Err(err),
        },
        Stmt::Function { name, parameters, body } => {
            let r1 = mark(mark(rs, name@, false), name@, true);
            let r2 = mark_parameters(Resolution { in_function: true, ..push_scope(r1) }, parameters);
            match resolve_stmts(r2, body) {
                Ok(r3) => Ok(Resolution { in_function: rs.in_function, ..pop_scope(r3) }),
                Err(err) => Err(err),
            }
        },
        Stmt::Return { value } => if !rs.in_function {
            Err(resolve_error(ResolveErrorKind::TopLevelReturn, None))
        } else {
            match value {
                Some(e) => resolve_expr(rs, e),
                None => Ok(rs),
            }
        },
    }
}

pub open spec fn resolve_stmts(rs: Resolution, l: StmtList) -> Result<Resolution, RloxError>
    decreases l,
{
    match l {
        StmtList::Empty => Ok(rs),
        StmtList::Cons(h, t) => match resolve_stmt(rs, *h) {
            Ok(r1) => resolve_stmts(r1, *t),
            Err(err) => Err(err),
        },
    }
}

/// The resolver's result on a list: its new state when it succeeds.
pub open spec fn resolved(old_r: Resolution, new_r: Resolution, res: Result<(), RloxError>, spec_r: Result<Resolution, RloxError>) -> bool {
    match spec_r {
        Ok(rs) => res is Ok && new_r == rs,
        Err(e) => res == Err::<(), RloxError>(e),
    }
}

/// The scope has an entry for `name`, found by scanning all its entries.
pub open spec fn holds_name(scope: Seq<(Seq<char>, bool)>, name: Seq<char>) -> bool {
    exists|j: int| 0 <= j < scope.len() && scope[j].0 == name
}

proof fn lemma_find_name_holds(scope: Seq<(Seq<char>, bool)>, name: Seq<char>)
    ensures
        (find_name(scope, name, 0) is Some) == holds_name(scope, name),
{
    lemma_find_name(scope, name, 0);
}

proof fn lemma_depth_from(scopes: Seq<Seq<(Seq<char>, bool)>>, name: Seq<char>, i: int)
    requires
        -1 <= i < scopes.len(),
    ensures
        match depth_from(scopes, name, i) {
            Some(d) => d < scopes.len() && scopes.len() - 1 - d <= i && holds_name(scopes[scopes.len() - 1 - d], name)
                && forall|k: int| scopes.len() - 1 - d < k <= i ==> !holds_name(#[trigger] scopes[k], name),
            None => forall|k: int| 0 <= k <= i ==> !holds_name(#[trigger] scopes[k], name),
        },
    decreases i + 1,
{
    if i >= 0 {
        lemma_find_name_holds(scopes[i], name);
        if find_name(scopes[i], name, 0) is None {
            lemma_depth_from(scopes, name, i - 1);
        }
    }
}

/// The depth the resolver records for a name is the one a plain scan of
/// the scope stack gives: counting outward from the innermost scope, the
/// scope at that distance holds the name and every nearer one does not;
/// when no scope holds it, no depth is recorded and the name is global.
pub proof fn lemma_depth_is_nearest_declaration(scopes: Seq<Seq<(Seq<char>, bool)>>, name: Seq<char>)
    ensures
        match nearest_depth(scopes, name) {
            Some(d) => d < scopes.len() && holds_name(scopes[scopes.len() - 1 - d], name)
                && forall|e: nat| e < d ==> !holds_name(#[trigger] scopes[scopes.len() - 1 - e], name),
            None => forall|k: int| 0 <= k < scopes.len() ==> !holds_name(#[trigger] scopes[k], name),
        },
{
    lemma_depth_from(scopes, name, scopes.len() - 1);
    match nearest_depth(scopes, name) {
        Some(d) => {
            assert forall|e: nat| e < d implies !holds_name(#[trigger] scopes[scopes.len() - 1 - e], name) by {
                let k = scopes.len() - 1 - e;
                assert(scopes.len() - 1 - d < k <= scopes.len() - 1);
            }
        },
        None => {},
    }
}

proof fn lemma_find_name_push(scope: Seq<(Seq<char>, bool)>, name: Seq<char>, defined: bool, i: int)
    requires
        0 <= i <= scope.len(),
        find_name(scope, name, i) is None,
    ensures
        find_name(scope.push((name, defined)), name, i) == Some(scope.len() as int),
    decreases scope.len() - i,
{
    if i < scope.len() {
        lemma_find_name_push(scope, name, defined, i + 1);
    }
}

proof fn lemma_find_name_update(scope: Seq<(Seq<char>, bool)>, name: Seq<char>, j: int, defined: bool, i: int)
    requires
        0 <= i <= j < scope.len(),
        find_name(scope, name, i) == Some(j),
    ensures
        find_name(scope.update(j, (name, defined)), name, i) == Some(j),
    decreases j - i,
{
    if i < j {
        lemma_find_name_update(scope, name, j, defined, i + 1);
    }
}

proof fn lemma_mark_declares(rs: Resolution, name: Seq<char>)
    requires
        rs.scopes.len() > 0,
    ensures
        declared_not_defined(mark(rs, name, false), name),
{
    let k = rs.scopes.len() - 1;
    let scope = rs.scopes[k];
    lemma_find_name(scope, name, 0);
    match find_name(scope, name, 0) {
        Some(j) => lemma_find_name_update(scope, name, j, false, 0),
        None => lemma_find_name_push(scope, name, false, 0),
    }
}

/// `var a = a;` is rejected whenever it stands in a scope of its own
/// (a block or a function body at any depth): reading the variable in
/// its own initializer is a static error.
pub proof fn lemma_own_initializer_rejected(rs: Resolution, id: usize, name: String)
    requires
        rs.scopes.len() > 0,
    ensures
        resolve_stmt(rs, Stmt::Var { name, initializer: Some(Expr::Variable { id, name }) })
            == Err::<Resolution, RloxError>(resolve_error(ResolveErrorKind::OwnInitializer, Some(name))),
{
    lemma_mark_declares(rs, name@);
}

/// A block holding `var a = a;` is rejected at any nesting, the top
/// level included, before anything runs.
pub proof fn lemma_own_initializer_in_block_rejected(rs: Resolution, id: usize, name: String)
    ensures
        resolve_stmt(
            rs,
            Stmt::Block {
                statements: StmtList::Cons(
                    Box::new(Stmt::Var { name, initializer: Some(Expr::Variable { id, name }) }),
                    Box::new(StmtList::Empty),
                ),
            },
        ) == Err::<Resolution, RloxError>(resolve_error(ResolveErrorKind::OwnInitializer, Some(name))),
{
    let v = Stmt::Var { name, initializer: Some(Expr::Variable { id, name }) };
    let l = StmtList::Cons(Box::new(v), Box::new(StmtList::Empty));
    lemma_own_initializer_rejected(push_scope(rs), id, name);
    assert(resolve_stmt(push_scope(rs), v) is Err);
    assert(resolve_stmts(push_scope(rs), l) == resolve_stmt(push_scope(rs), v));
}

/// Resolving a variable read that is not in its own initializer records
/// at most one entry and touches no other: the distance to the nearest
/// scope holding the name (that scope holds it, no nearer one does), or
/// nothing at all when no scope holds it and the name is left to the
/// globals.
pub proof fn lemma_variable_records_nearest(rs: Resolution, id: usize, name: String)
    requires
        !declared_not_defined(rs, name@),
    ensures
        resolve_expr(rs, Expr::Variable { id, name }) == Ok::<Resolution, RloxError>(record(rs, id, name@)),
        match nearest_depth(rs.scopes, name@) {
            Some(d) => record(rs, id, name@).depths == rs.depths.push((id, d as usize))
                && holds_name(rs.scopes[rs.scopes.len() - 1 - d], name@)
                && forall|e: nat| e < d ==> !holds_name(#[trigger] rs.scopes[rs.scopes.len() - 1 - e], name@),
            None => record(rs, id, name@).depths == rs.depths
                && forall|k: int| 0 <= k < rs.scopes.len() ==> !holds_name(#[trigger] rs.scopes[k], name@),
        },
        record(rs, id, name@).scopes == rs.scopes,
        record(rs, id, name@).in_function == rs.in_function,
{
    lemma_depth_is_nearest_declaration(rs.scopes, name@);
}

/// An assignment resolves its value first, then records its target the
/// same way a read does.
pub proof fn lemma_assignment_records_nearest(rs: Resolution, id: usize, name: String, value: Expr)
    requires
        resolve_expr(rs, value) is Ok,
    ensures
        resolve_expr(rs, Expr::Assign { id, name, value: Box::new(value) })
            == Ok::<Resolution, RloxError>(record(resolve_expr(rs, value)->Ok_0, id, name@)),
{
}

/// `return` outside every function body is rejected, whatever it returns.
pub proof fn lemma_top_level_return_rejected(rs: Resolution, value: Option<Expr>)
    requires
        !rs.in_function,
    ensures
        resolve_stmt(rs, Stmt::Return { value }) == Err::<Resolution, RloxError>(
            resolve_error(ResolveErrorKind::TopLevelReturn, None),
        ),
{
}

/// The state a resolution starts from: no scopes, outside every function,
/// no depths recorded.
pub open spec fn fresh_resolution() -> Resolution {
    Resolution { scopes: Seq::empty(), in_function: false, depths: Seq::empty() }
}

impl Resolver {
    pub fn new(interpreter: Interpreter) -> (r: Resolver)
        ensures
            r.interpreter == interpreter,
            r@.scopes.len() == 0,
            !r@.in_function,
            r@.depths.len() == 0,
    {
        let r = Resolver { interpreter, scopes: Vec::new(), current_function: FunctionType::TopLevel, depth_map: Vec::new() };
        assert(r@.scopes =~= Seq::<Seq<(Seq<char>, bool)>>::empty());
        r
    }

    /// Resolves a program from a fresh start (no scopes, outside every
    /// function, no pending depths, whatever an earlier call left) and,
    /// when it passes, hands the depths to the interpreter; a rejected
    /// program leaves the interpreter untouched.
    pub fn resolve(&mut self, statements: &StmtList) -> (r: Result<(), RloxError>)
        ensures
            match resolve_stmts(fresh_resolution(), *statements) {
                Ok(rs) => r is Ok && final(self).interpreter@ == (State {
                    locals: with_entries(old(self).interpreter@.locals, rs.depths),
                    ..old(self).interpreter@
                }) && final(self).interpreter.clock_log@ == old(self).interpreter.clock_log@
                    && final(self)@.depths.len() == 0,
                Err(e) => r == Err::<(), RloxError>(e) && final(self).interpreter == old(self).interpreter,
            },
    {
        self.scopes = Vec::new();
        self.current_function = FunctionType::TopLevel;
        self.depth_map = Vec::new();
        assert(self@.scopes =~= fresh_resolution().scopes);
        assert(self@.depths =~= fresh_resolution().depths);
        match self.resolve_statements(statements) {
            Ok(()) => {},
            Err(e) => return Err(e),
        }
        self.interpreter.add_scopes(&self.depth_map);
        self.depth_map = Vec::new();
        Ok(())
    }

    fn begin_scope(&mut self)
        ensures
            final(self)@ == push_scope(old(self)@),
            final(self).interpreter == old(self).interpreter,
    {
        let ghost sc = self.scopes@;
        let fresh: Vec<(String, bool)> = Vec::new();
        assert(scope_view(fresh) =~= Seq::<(Seq<char>, bool)>::empty());
        self.scopes.push(fresh);
        assert(scopes_view(self.scopes@) =~= scopes_view(sc).push(Seq::empty()));
    }

    fn end_scope(&mut self)
        ensures
            final(self)@ == pop_scope(old(self)@),
            final(self).interpreter == old(self).interpreter,
    {
        let ghost sc = self.scopes@;
        if self.scopes.len() > 0 {
            let _ = self.scopes.pop();
            assert(scopes_view(self.scopes@) =~= scopes_view(sc).drop_last());
        }
    }

    fn mark(&mut self, name: &String, defined: bool)
        ensures
            final(self)@ == mark(old(self)@, name@, defined),
            final(self).interpreter == old(self).interpreter,
    {
        let n = self.scopes.len();
        if n == 0 {
            return;
        }
        let k = n - 1;
        let ghost sc = scopes_view(self.scopes@);
        let ghost scope = sc[k as int];
        let found = Resolver::position(&self.scopes[k], name);
        match found {
            Some(j) => {
                proof { lemma_find_name(scope, name@, j as int); }
                self.scopes[k].set(j, (name.clone(), defined));
                assert(scope_view(self.scopes@[k as int]) =~= scope.update(j as int, (name@, defined)));
            },
            None => {
                self.scopes[k].push((name.clone(), defined));
                assert(scope_view(self.scopes@[k as int]) =~= scope.push((name@, defined)));
            },
        }
        assert(scopes_view(self.scopes@) =~= mark(old(self)@, name@, defined).scopes);
    }

    fn position(scope: &Vec<(String, bool)>, name: &String) -> (r: Option<usize>)
        ensures
            match r {
                Some(j) => find_name(scope_view(*scope), name@, 0) == Some(j as int) && j < scope.len(),
                None => find_name(scope_view(*scope), name@, 0) is None,
            },
    {
        let ghost sv = scope_view(*scope);
        let mut i: usize = 0;
        while i < scope.len()
            invariant
                sv == scope_view(*scope),
                i <= scope.len(),
                find_name(sv, name@, 0) == find_name(sv, name@, i as int),
            decreases scope.len() - i,
        {
            if scope[i].0 == *name {
                proof { lemma_find_name(sv, name@, i as int); }
                return Some(i);
            }
            i = i + 1;
        }
        None
    }

    fn holds(scope: &Vec<(String, bool)>, name: &String) -> (r: Option<bool>)
        ensures
            match r {
                Some(d) => find_name(scope_view(*scope), name@, 0) matches Some(j) && scope_view(*scope)[j].1 == d,
                None => find_name(scope_view(*scope), name@, 0) is None,
            },
    {
        let ghost sv = scope_view(*scope);
        let mut i: usize = 0;
        while i < scope.len()
            invariant
                sv == scope_view(*scope),
                i <= scope.len(),
                find_name(sv, name@, 0) == find_name(sv, name@, i as int),
            decreases scope.len() - i,
        {
            if scope[i].0 == *name {
                return Some(scope[i].1);
            }
            i = i + 1;
        }
        None
    }

    fn resolve_local(&mut self, id: usize, name: &String)
        ensures
            final(self)@ == record(old(self)@, id, name@),
            final(self).interpreter == old(self).interpreter,
    {
        let n = self.scopes.len();
        let mut i: usize = n;
        let ghost sc = scopes_view(self.scopes@);
        while i > 0
            invariant
                i <= n,
                n == self.scopes.len(),
                sc == scopes_view(self.scopes@),
                self@ == old(self)@,
                self.interpreter == old(self).interpreter,
                nearest_depth(sc, name@) == depth_from(sc, name@, i - 1),
            decreases i,
        {
            if Resolver::holds(&self.scopes[i - 1], name).is_some() {
                self.depth_map.push((id, n - i));
                return;
            }
            i = i - 1;
        }
    }

    fn resolve_expression(&mut self, e: &Expr) -> (r: Result<(), RloxError>)
        ensures
            resolved(old(self)@, final(self)@, r, resolve_expr(old(self)@, *e)),
            final(self).interpreter == old(self).interpreter,
        decreases e,
    {
        match e {
            Expr::Binary { left, right, .. } => {
                match self.resolve_expression(left) {
                    Ok(()) => {},
                    Err(err) => return Err(err),
                }
                self.resolve_expression(right)
            },
            Expr::Logical { left, right, .. } => {
                match self.resolve_expression(left) {
                    Ok(()) => {},
                    Err(err) => return Err(err),
                }
                self.resolve_expression(right)
            },
            Expr::Call { callee, arguments } => {
                match self.resolve_expression(callee) {
                    Ok(()) => {},
                    Err(err) => return Err(err),
                }
                self.resolve_arguments(arguments)
            },
            Expr::Grouping { expression } => self.resolve_expression(expression),
            Expr::Unary { right, .. } => self.resolve_expression(right),
            Expr::Variable { id, name } => {
                let n = self.scopes.len();
                if n > 0 {
                    match Resolver::holds(&self.scopes[n - 1], name) {
                        Some(false) => {
                            return Err(RloxError::ResolveError {
                                kind: ResolveErrorKind::OwnInitializer,
                                name: Some(name.clone()),
                            });
                        },
                        _ => {},
                    }
                }
                self.resolve_local(*id, name);
                Ok(())
            },
            Expr::Assign { id, name, value } => {
                match self.resolve_expression(value) {
                    Ok(()) => {},
                    Err(err) => return Err(err),
                }
                self.resolve_local(*id, name);
                Ok(())
            },
            _ => Ok(()),
        }
    }

    fn resolve_arguments(&mut self, l: &ExprList) -> (r: Result<(), RloxError>)
        ensures
            resolved(old(self)@, final(self)@, r, resolve_exprs(old(self)@, *l)),
            final(self).interpreter == old(self).interpreter,
        decreases l,
    {
        match l {
            ExprList::Empty => Ok(()),
            ExprList::Cons(h, t) => {
                match self.resolve_expression(h) {
                    Ok(()) => {},
                    Err(err) => return Err(err),
                }
                self.resolve_arguments(t)
            },
        }
    }

    fn mark_parameters(&mut self, params: &NameList)
        ensures
            final(self)@ == mark_parameters(old(self)@, *params),
            final(self).interpreter == old(self).interpreter,
        decreases params,
    {
        match params {
            NameList::Empty => {},
            NameList::Cons(h, t) => {
                self.mark(h, false);
                self.mark(h, true);
                self.mark_parameters(t);
            },
        }
    }

    fn resolve_statement(&mut self, s: &Stmt) -> (r: Result<(), RloxError>)
        ensures
            resolved(old(self)@, final(self)@, r, resolve_stmt(old(self)@, *s)),
            final(self).interpreter == old(self).interpreter,
        decreases s,
    {
        match s {
            Stmt::Block { statements } => {
                self.begin_scope();
                match self.resolve_statements(statements) {
                    Ok(()) => {},
                    Err(err) => return Err(err),
                }
                self.end_scope();
                Ok(())
            },
            Stmt::Expression { expression } => self.resolve_expression(expression),
            Stmt::Print { expression } => self.resolve_expression(expression),
            Stmt::Var { name, initializer } => {
                self.mark(name, false);
                match initializer {
                    Some(e) => match self.resolve_expression(e) {
                        Ok(()) => {},
                        Err(err) => return Err(err),
                    },
                    None => {},
                }
                self.mark(name, true);
                Ok(())
            },
            Stmt::If { condition, then_branch, else_branch } => {
                match self.resolve_expression(condition) {
                    Ok(()) => {},
                    Err(err) => return Err(err),
                }
                match self.resolve_statement(then_branch) {
                    Ok(()) => {},
                    Err(err) => return Err(err),
                }
                match else_branch {
                    Some(b) => self.resolve_statement(b),
                    None => Ok(()),
                }
            },
            Stmt::While { condition, body } => {
                match self.resolve_expression(condition) {
                    Ok(()) => {},
                    Err(err) => return Err(err),
                }
                self.resolve_statement(body)
            },
            Stmt::Function { name, parameters, body } => {
                self.mark(name, false);
                self.mark(name, true);
                let enclosing = self.current_function;
                self.current_function = FunctionType::Function;
                self.begin_scope();
                self.mark_parameters(parameters);
                match self.resolve_statements(body) {
                    Ok(()) => {},
                    Err(err) => return Err(err),
                }
                self.end_scope();
                self.current_function = enclosing;
                Ok(())
            },
            Stmt::Return { value } => {
                if self.current_function == FunctionType::TopLevel {
                    return Err(RloxError::ResolveError { kind: ResolveErrorKind::TopLevelReturn, name: None });
                }
                match value {
                    Some(e) => self.resolve_expression(e),
                    None => Ok(()),
                }
            },
        }
    }

    /// Resolves the statements in order, stopping at the first error.
    pub fn resolve_statements(&mut self, statements: &StmtList) -> (r: Result<(), RloxError>)
        ensures
            resolved(old(self)@, final(self)@, r, resolve_stmts(old(self)@, *statements)),
            final(self).interpreter == old(self).interpreter,
        decreases statements,
    {
        match statements {
            StmtList::Empty => Ok(()),
            StmtList::Cons(h, t) => {
                match self.resolve_statement(h) {
                    Ok(()) => {},
                    Err(err) => return Err(err),
                }
                self.resolve_statements(t)
            },
        }
    }
}

} // verus!
