//! Syntax trees as mathematical values: names and texts as character sequences, lists as
//! sequences, shared nodes as plain nodes.
use vstd::prelude::*;

use super::{
    Associativity, Expr, Exposing, ExposingDetail, Import, Module, Pattern, Stmt, Type,
    TypeAnnotation, TypeState,
};

verus! {

/// A qualified lower-case name: module segments and access segments.
pub type LowerNameView = (Seq<Seq<char>>, Seq<Seq<char>>);

/// A qualified capitalised name: module segments and the name.
pub type UpperNameView = (Seq<Seq<char>>, Seq<char>);

pub enum PatternView {
    Anything,
    Bool(bool),
    Integer(i32),
    Name(Seq<char>),
}

pub enum ExprView {
    Bool(bool),
    Integer(i32),
    Float(Seq<char>),
    String(Seq<char>),
    List(Seq<ExprView>),
    BinOp { operator: Seq<char>, left: Box<ExprView>, right: Box<ExprView> },
    If { condition: Box<ExprView>, then_branch: Box<ExprView>, else_branch: Box<ExprView> },
    Case { expr: Box<ExprView>, branches: Seq<(PatternView, ExprView)> },
    Call { function: Box<ExprView>, args: Seq<ExprView> },
    VarName(LowerNameView),
}

pub enum TypeView {
    Var(Seq<char>),
    Bool,
    Int,
    Float,
    Char,
    String,
    Unit,
    List(Box<TypeView>),
    Function { from: Box<TypeView>, to: Box<TypeView> },
    UserDefined { name: UpperNameView, args: Seq<TypeView> },
}

pub enum ExposingDetailView {
    Type(Seq<char>, TypeState),
    Operator(Seq<char>),
    Name(Seq<char>),
}

pub enum ExposingView {
    All,
    List(Seq<ExposingDetailView>),
}

/// An import: the module's name segments and what it exposes.
pub type ImportView = (Seq<Seq<char>>, Option<ExposingView>);

/// A type annotation: the annotated name and its type.
pub type AnnotationView = (Seq<char>, TypeView);

pub enum StmtView {
    Binding { type_annotation: Option<AnnotationView>, name: Seq<char>, expr: ExprView },
    Function {
        type_annotation: Option<AnnotationView>,
        name: Seq<char>,
        args: Seq<PatternView>,
        expr: ExprView,
    },
    Infix {
        operator_name: Seq<char>,
        associativity: Associativity,
        precedence: usize,
        function_name: LowerNameView,
    },
    Type { name: Seq<char>, args: Seq<Seq<char>>, constructors: Seq<TypeView> },
}

/// A module: its name, what it exposes, its imports and its statements.
pub type ModuleView = (Seq<Seq<char>>, ExposingView, Seq<ImportView>, Seq<StmtView>);

pub open spec fn pattern_view(p: Pattern) -> PatternView {
    match p {
        Pattern::Anything => PatternView::Anything,
        Pattern::Bool(b) => PatternView::Bool(b),
        Pattern::Integer(i) => PatternView::Integer(i),
        Pattern::Name(n) => PatternView::Name(n@),
    }
}

pub open spec fn patterns_view(s: Seq<Pattern>) -> Seq<PatternView> {
    s.map_values(|p: Pattern| pattern_view(p))
}

pub open spec fn expr_view(e: Expr) -> ExprView
    decreases e,
{
    match e {
        Expr::Bool(b) => ExprView::Bool(b),
        Expr::Integer(i) => ExprView::Integer(i),
        Expr::Float(f) => ExprView::Float(f.0@),
        Expr::String(s) => ExprView::String(s@),
        Expr::List(items) => ExprView::List(exprs_view(items@)),
        Expr::BinOp { operator, left, right } => ExprView::BinOp {
            operator: operator@,
            left: Box::new(expr_view(*left)),
            right: Box::new(expr_view(*right)),
        },
        Expr::If { condition, then_branch, else_branch } => ExprView::If {
            condition: Box::new(expr_view(*condition)),
            then_branch: Box::new(expr_view(*then_branch)),
            else_branch: Box::new(expr_view(*else_branch)),
        },
        Expr::Case { expr, branches } => ExprView::Case {
            expr: Box::new(expr_view(*expr)),
            branches: branches_view(branches@),
        },
        Expr::Call { function, args } => ExprView::Call {
            function: Box::new(expr_view(*function)),
            args: exprs_view(args@),
        },
        Expr::VarName(name) => ExprView::VarName(name@),
    }
}

pub open spec fn exprs_view(s: Seq<std::rc::Rc<Expr>>) -> Seq<ExprView>
    decreases s,
{
    if s.len() == 0 {
        Seq::empty()
    } else {
        exprs_view(s.drop_last()).push(expr_view(*s.last()))
    }
}

pub open spec fn branches_view(s: Seq<(Pattern, Expr)>) -> Seq<(PatternView, ExprView)>
    decreases s,
{
    if s.len() == 0 {
        Seq::empty()
    } else {
        branches_view(s.drop_last()).push((pattern_view(s.last().0), expr_view(s.last().1)))
    }
}

pub open spec fn type_view(t: Type) -> TypeView
    decreases t,
{
    match t {
        Type::Var(n) => TypeView::Var(n.0@),
        Type::Bool => TypeView::Bool,
        Type::Int => TypeView::Int,
        Type::Float => TypeView::Float,
        Type::Char => TypeView::Char,
        Type::String => TypeView::String,
        Type::Unit => TypeView::Unit,
        Type::List(t) => TypeView::List(Box::new(type_view(*t))),
        Type::Function { from, to } => TypeView::Function {
            from: Box::new(type_view(*from)),
            to: Box::new(type_view(*to)),
        },
        Type::UserDefined { name, args } => TypeView::UserDefined {
            name: name@,
            args: types_view(args@),
        },
    }
}

pub open spec fn types_view(s: Seq<Type>) -> Seq<TypeView>
    decreases s,
{
    if s.len() == 0 {
        Seq::empty()
    } else {
        types_view(s.drop_last()).push(type_view(s.last()))
    }
}

pub open spec fn detail_view(d: ExposingDetail) -> ExposingDetailView {
    match d {
        ExposingDetail::Type(n, s) => ExposingDetailView::Type(n.0@, s),
        ExposingDetail::Operator(o) => ExposingDetailView::Operator(o@),
        ExposingDetail::Name(n) => ExposingDetailView::Name(n@),
    }
}

pub open spec fn details_view(s: Seq<ExposingDetail>) -> Seq<ExposingDetailView> {
    s.map_values(|d: ExposingDetail| detail_view(d))
}

pub open spec fn exposing_view(e: Exposing) -> ExposingView {
    match e {
        Exposing::All => ExposingView::All,
        Exposing::List(ds) => ExposingView::List(details_view(ds@)),
    }
}

pub open spec fn import_view(i: Import) -> ImportView {
    (
        i.module_name.deep_view(),
        match i.exposing {
            Some(e) => Some(exposing_view(e)),
            None => None,
        },
    )
}

pub open spec fn imports_view(s: Seq<Import>) -> Seq<ImportView> {
    s.map_values(|i: Import| import_view(i))
}

pub open spec fn annotation_view(a: Option<TypeAnnotation>) -> Option<AnnotationView> {
    match a {
        Some(a) => Some((a.name.0@, type_view(a.type_))),
        None => None,
    }
}

pub open spec fn stmt_view(s: Stmt) -> StmtView {
    match s {
        Stmt::Binding { type_annotation, name, expr } => StmtView::Binding {
            type_annotation: annotation_view(type_annotation),
            name: name.0@,
            expr: expr_view(*expr),
        },
        Stmt::Function { type_annotation, name, args, expr } => StmtView::Function {
            type_annotation: annotation_view(type_annotation),
            name: name.0@,
            args: patterns_view(args@),
            expr: expr_view(*expr),
        },
        Stmt::Infix { operator_name, associativity, precedence, function_name } => StmtView::Infix {
            operator_name: operator_name@,
            associativity,
            precedence,
            function_name: function_name@,
        },
        Stmt::Type { name, args, constructors } => StmtView::Type {
            name: name.0@,
            args: names_view(args@),
            constructors: types_view(constructors@),
        },
    }
}

/// Lower-case names as character sequences.
pub open spec fn names_view(s: Seq<super::LowerName>) -> Seq<Seq<char>> {
    s.map_values(|a: super::LowerName| a.0@)
}

pub open spec fn stmts_view(s: Seq<std::rc::Rc<Stmt>>) -> Seq<StmtView> {
    s.map_values(|x: std::rc::Rc<Stmt>| stmt_view(*x))
}

pub open spec fn module_view(m: Module) -> ModuleView {
    (
        m.name.deep_view(),
        exposing_view(m.exposing),
        imports_view(m.imports@),
        stmts_view(m.statements@),
    )
}

} // verus!
