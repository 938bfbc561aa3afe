//! The statement tree a successful parse produces, together with its
//! mathematical models. Every syntax type has a ghost model holding the
//! same structure over `Seq<char>`, reached through `View`; contracts speak
//! of the models.

use vstd::prelude::*;

verus! {

/// A bare or quoted identifier. `quote_style` holds the delimiting quote
/// character when the identifier was written quoted, and `None` when bare.
#[derive(Clone, Debug, PartialEq, Eq)]
pub struct Ident {
    pub value: Vec<char>,
    pub quote_style: Option<char>,
}

pub ghost struct IdentModel {
    pub value: Seq<char>,
    pub quote_style: Option<char>,
}

impl View for Ident {
    type V = IdentModel;

    open spec fn view(&self) -> IdentModel {
        IdentModel { value: self.value@, quote_style: self.quote_style }
    }
}

/// A table reference: the target of `FROM` or `USING`.
#[derive(Clone, Debug, PartialEq, Eq)]
pub struct TableFactor {
    pub name: Ident,
}

pub ghost struct TableFactorModel {
    pub name: IdentModel,
}

impl View for TableFactor {
    type V = TableFactorModel;

    open spec fn view(&self) -> TableFactorModel {
        TableFactorModel { name: self.name@ }
    }
}

/// An atomic operand of an expression: a column reference or a numeric
/// literal (kept as its digits).
#[derive(Clone, Debug, PartialEq, Eq)]
pub enum Operand {
    Identifier(Ident),
    Number(Vec<char>),
}

pub ghost enum OperandModel {
    Identifier(IdentModel),
    Number(Seq<char>),
}

impl View for Operand {
    type V = OperandModel;

    open spec fn view(&self) -> OperandModel {
        match self {
            Operand::Identifier(id) => OperandModel::Identifier(id@),
            Operand::Number(n) => OperandModel::Number(n@),
        }
    }
}

/// The boolean-expression grammar this core supports: a single operand, or
/// an equality between two operands.
#[derive(Clone, Debug, PartialEq, Eq)]
pub enum Expr {
    Operand(Operand),
    Equals { left: Operand, right: Operand },
}

pub ghost enum ExprModel {
    Operand(OperandModel),
    Equals { left: OperandModel, right: OperandModel },
}

impl View for Expr {
    type V = ExprModel;

    open spec fn view(&self) -> ExprModel {
        match self {
            Expr::Operand(op) => ExprModel::Operand(op@),
            Expr::Equals { left, right } => ExprModel::Equals { left: left@, right: right@ },
        }
    }
}

/// One sort specification of an `ORDER BY` clause: an expression and an
/// optional direction (`Some(true)` for `ASC`, `Some(false)` for `DESC`).
#[derive(Clone, Debug, PartialEq, Eq)]
pub struct OrderByExpr {
    pub expr: Expr,
    pub asc: Option<bool>,
}

pub ghost struct OrderByExprModel {
    pub expr: ExprModel,
    pub asc: Option<bool>,
}

impl View for OrderByExpr {
    type V = OrderByExprModel;

    open spec fn view(&self) -> OrderByExprModel {
        OrderByExprModel { expr: self.expr@, asc: self.asc }
    }
}

/// The models of a sequence of sort specifications.
pub open spec fn order_by_models(s: Seq<OrderByExpr>) -> Seq<OrderByExprModel> {
    s.map_values(|o: OrderByExpr| o@)
}

/// A parsed statement. Every optional field of `Delete` reflects exactly
/// whether its introducing keyword was present in the input: absence of the
/// keyword means the field is absent, never defaulted.
#[derive(Clone, Debug, PartialEq, Eq)]
pub enum Statement {
    Delete {
        table_name: TableFactor,
        using: Option<TableFactor>,
        selection: Option<Expr>,
        order_by: Option<Vec<OrderByExpr>>,
        limit: Option<Expr>,
    },
    Select {
        projection: Expr,
    },
}

pub ghost enum StatementModel {
    Delete {
        table_name: TableFactorModel,
        using: Option<TableFactorModel>,
        selection: Option<ExprModel>,
        order_by: Option<Seq<OrderByExprModel>>,
        limit: Option<ExprModel>,
    },
    Select {
        projection: ExprModel,
    },
}

impl View for Statement {
    type V = StatementModel;

    open spec fn view(&self) -> StatementModel {
        match self {
            Statement::Delete { table_name, using, selection, order_by, limit } => {
                StatementModel::Delete {
                    table_name: table_name@,
                    using: match using {
                        Some(t) => Some(t@),
                        None => None,
                    },
                    selection: match selection {
                        Some(e) => Some(e@),
                        None => None,
                    },
                    order_by: match order_by {
                        Some(v) => Some(order_by_models(v@)),
                        None => None,
                    },
                    limit: match limit {
                        Some(e) => Some(e@),
                        None => None,
                    },
                }
            },
            Statement::Select { projection } => {
                StatementModel::Select { projection: projection@ }
            },
        }
    }
}

} // verus!
