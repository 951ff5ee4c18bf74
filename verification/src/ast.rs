use vstd::prelude::*;

verus! {

/// The cache-eviction policy a definition names: inert metadata handed
/// to a downstream executor. A capacity of -1 means "unspecified";
/// `Off` means no caching behavior was requested.
#[derive(Debug, Clone, Copy, PartialEq, Eq, Structural)]
pub enum Cache {
    Lru(isize),
    Mru(isize),
    Lfu(isize),
    Mfu(isize),
    Off,
}

/// A primitive expression. Each composite variant exclusively owns its
/// sub-expressions: the tree shares nothing and has no cycles.
///
/// A numeric literal carries its text exactly as scanned; the numeric
/// value is recovered from the text by the consumer of the tree.
#[derive(Debug, PartialEq)]
pub enum Expr {
    Binary { op: char, left: Box<Expr>, right: Box<Expr> },
    Call { fn_name: String, args: Vec<Expr>, bang: bool },
    Conditional { cond: Box<Expr>, consequence: Box<Expr>, alternative: Box<Expr> },
    For { var_name: String, start: Box<Expr>, end: Box<Expr>, step: Option<Box<Expr>>, body: Box<
        Expr,
    > },
    Number(String),
    Str(String),
    Variable(String),
    VarIn { variables: Vec<(String, Option<Expr>)>, body: Box<Expr> },
}

/// The mathematical value of an `Expr`: the same tree with every owned
/// string abstracted to its sequence of characters.
pub enum ExprV {
    Binary { op: char, left: Box<ExprV>, right: Box<ExprV> },
    Call { fn_name: Seq<char>, args: Seq<ExprV>, bang: bool },
    Conditional { cond: Box<ExprV>, consequence: Box<ExprV>, alternative: Box<ExprV> },
    For { var_name: Seq<char>, start: Box<ExprV>, end: Box<ExprV>, step: Option<Box<ExprV>>, body: Box<
        ExprV,
    > },
    Number(Seq<char>),
    Str(Seq<char>),
    Variable(Seq<char>),
    VarIn { variables: Seq<(Seq<char>, Option<ExprV>)>, body: Box<ExprV> },
}

pub open spec fn expr_view(e: Expr) -> ExprV
    decreases e,
{
    match e {
        Expr::Binary { op, left, right } => ExprV::Binary {
            op,
            left: Box::new(expr_view(*left)),
            right: Box::new(expr_view(*right)),
        },
        Expr::Call { fn_name, args, bang } => ExprV::Call {
            fn_name: fn_name@,
            args: exprs_view(args@),
            bang,
        },
        Expr::Conditional { cond, consequence, alternative } => ExprV::Conditional {
            cond: Box::new(expr_view(*cond)),
            consequence: Box::new(expr_view(*consequence)),
            alternative: Box::new(expr_view(*alternative)),
        },
        Expr::For { var_name, start, end, step, body } => ExprV::For {
            var_name: var_name@,
            start: Box::new(expr_view(*start)),
            end: Box::new(expr_view(*end)),
            step: match step {
                Option::Some(se) => Option::Some(Box::new(expr_view(*se))),
                Option::None => Option::None,
            },
            body: Box::new(expr_view(*body)),
        },
        Expr::Number(t) => ExprV::Number(t@),
        Expr::Str(t) => ExprV::Str(t@),
        Expr::Variable(n) => ExprV::Variable(n@),
        Expr::VarIn { variables, body } => ExprV::VarIn {
            variables: vars_view(variables@),
            body: Box::new(expr_view(*body)),
        },
    }
}

pub open spec fn exprs_view(es: Seq<Expr>) -> Seq<ExprV>
    decreases es,
{
    if es.len() == 0 {
        Seq::empty()
    } else {
        seq![expr_view(es[0])] + exprs_view(es.drop_first())
    }
}

pub open spec fn vars_view(vs: Seq<(String, Option<Expr>)>) -> Seq<(Seq<char>, Option<ExprV>)>
    decreases vs,
{
    if vs.len() == 0 {
        Seq::empty()
    } else {
        seq![
            (
                vs[0].0@,
                match vs[0].1 {
                    Option::Some(e) => Option::Some(expr_view(e)),
                    Option::None => Option::None,
                },
            ),
        ] + vars_view(vs.drop_first())
    }
}

impl View for Expr {
    type V = ExprV;

    open spec fn view(&self) -> ExprV {
        expr_view(*self)
    }
}

pub proof fn lemma_exprs_view_push(es: Seq<Expr>, e: Expr)
    ensures
        exprs_view(es.push(e)) =~= exprs_view(es).push(expr_view(e)),
    decreases es.len(),
{
    reveal_with_fuel(exprs_view, 3);
    if es.len() == 0 {
        assert(es.push(e).drop_first() =~= Seq::<Expr>::empty());
        assert(exprs_view(Seq::<Expr>::empty()) =~= Seq::<ExprV>::empty());
        assert(es.push(e)[0] == e);
        assert(seq![expr_view(e)] + Seq::<ExprV>::empty() =~= Seq::<ExprV>::empty().push(
            expr_view(e),
        ));
    } else {
        assert(es.push(e)[0] == es[0]);
        assert(es.push(e).drop_first() =~= es.drop_first().push(e));
        lemma_exprs_view_push(es.drop_first(), e);
        assert(seq![expr_view(es[0])] + exprs_view(es.drop_first()).push(expr_view(e)) =~= (
        seq![expr_view(es[0])] + exprs_view(es.drop_first())).push(expr_view(e)));
    }
}

pub proof fn lemma_vars_view_push(vs: Seq<(String, Option<Expr>)>, v: (String, Option<Expr>))
    ensures
        vars_view(vs.push(v)) =~= vars_view(vs).push(
            (
                v.0@,
                match v.1 {
                    Option::Some(e) => Option::Some(expr_view(e)),
                    Option::None => Option::None,
                },
            ),
        ),
    decreases vs.len(),
{
    let vv = (
        v.0@,
        match v.1 {
            Option::Some(e) => Option::Some(expr_view(e)),
            Option::None => Option::None,
        },
    );
    reveal_with_fuel(vars_view, 3);
    if vs.len() == 0 {
        assert(vs.push(v).drop_first() =~= Seq::<(String, Option<Expr>)>::empty());
        assert(vars_view(Seq::<(String, Option<Expr>)>::empty()) =~= Seq::<(
            Seq<char>,
            Option<ExprV>,
        )>::empty());
        assert(vs.push(v)[0] == v);
        assert(seq![vv] + Seq::<(Seq<char>, Option<ExprV>)>::empty() =~= Seq::<(
            Seq<char>,
            Option<ExprV>,
        )>::empty().push(vv));
    } else {
        assert(vs.push(v)[0] == vs[0]);
        assert(vs.push(v).drop_first() =~= vs.drop_first().push(v));
        lemma_vars_view_push(vs.drop_first(), v);
        let v0 = (
            vs[0].0@,
            match vs[0].1 {
                Option::Some(e) => Option::Some(expr_view(e)),
                Option::None => Option::None,
            },
        );
        assert(seq![v0] + vars_view(vs.drop_first()).push(vv) =~= (seq![v0] + vars_view(
            vs.drop_first(),
        )).push(vv));
    }
}

/// The prototype of a function: its name, its `(parameter, type)`
/// pairs, whether it declares a user-defined operator, and, for a
/// binary operator, the declared precedence.
#[derive(Debug, PartialEq)]
pub struct Prototype {
    pub name: String,
    pub args: Vec<(String, String)>,
    pub is_op: bool,
    pub prec: usize,
}

/// The mathematical value of a `Prototype`.
pub struct ProtoV {
    pub name: Seq<char>,
    pub args: Seq<(Seq<char>, Seq<char>)>,
    pub is_op: bool,
    pub prec: usize,
}

pub open spec fn params_view(ps: Seq<(String, String)>) -> Seq<(Seq<char>, Seq<char>)> {
    ps.map_values(|p: (String, String)| (p.0@, p.1@))
}

impl View for Prototype {
    type V = ProtoV;

    open spec fn view(&self) -> ProtoV {
        ProtoV {
            name: self.name@,
            args: params_view(self.args@),
            is_op: self.is_op,
            prec: self.prec,
        }
    }
}

/// A top-level unit: a user-defined or external function. The body is
/// absent for an external declaration; `is_anon` marks the synthetic
/// wrapper around a bare top-level expression.
#[derive(Debug, PartialEq)]
pub struct Function {
    pub prototype: Prototype,
    pub body: Option<Expr>,
    pub is_anon: bool,
    pub cache: Cache,
}

/// The mathematical value of a `Function`.
pub struct FunctionV {
    pub prototype: ProtoV,
    pub body: Option<ExprV>,
    pub is_anon: bool,
    pub cache: Cache,
}

impl View for Function {
    type V = FunctionV;

    open spec fn view(&self) -> FunctionV {
        FunctionV {
            prototype: self.prototype@,
            body: match &self.body {
                Option::Some(e) => Option::Some(expr_view(*e)),
                Option::None => Option::None,
            },
            is_anon: self.is_anon,
            cache: self.cache,
        }
    }
}

} // verus!
