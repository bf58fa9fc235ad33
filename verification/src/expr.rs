//! The expression tree, the visitor that traverses it, and the printer that
//! renders a tree as parenthesized prefix text.

use vstd::prelude::*;
use vstd::string::StringExecFns;
use crate::lexer::Token;
use crate::token::TokenModel;

verus! {

/// An expression. Each node owns its children.
pub enum Expr {
    Binary(Box<Expr>, Token, Box<Expr>),
    Grouping(Box<Expr>),
    Literal(Option<Token>),
    Unary(Token, Box<Expr>),
}

/// An expression as plain mathematical data.
pub enum ExprModel {
    Binary(Box<ExprModel>, TokenModel, Box<ExprModel>),
    Grouping(Box<ExprModel>),
    Literal(Option<TokenModel>),
    Unary(TokenModel, Box<ExprModel>),
}

impl Expr {
    /// The expression as plain mathematical data.
    pub open spec fn model(self) -> ExprModel
        decreases self,
    {
        match self {
            Expr::Binary(left, operator, right) => ExprModel::Binary(
                Box::new((*left).model()),
                operator@,
                Box::new((*right).model()),
            ),
            Expr::Grouping(inner) => ExprModel::Grouping(Box::new((*inner).model())),
            Expr::Literal(Some(token)) => ExprModel::Literal(Some(token@)),
            Expr::Literal(None) => ExprModel::Literal(None),
            Expr::Unary(operator, operand) => ExprModel::Unary(
                operator@,
                Box::new((*operand).model()),
            ),
        }
    }
}

impl View for Expr {
    type V = ExprModel;

    open spec fn view(&self) -> ExprModel {
        self.model()
    }
}

impl Clone for Expr {
    fn clone(&self) -> (res: Self)
        ensures
            res@ == self@,
        decreases *self,
    {
        match self {
            Expr::Binary(left, operator, right) => {
                let l: &Expr = left;
                let r: &Expr = right;
                Expr::Binary(Box::new(l.clone()), operator.clone(), Box::new(r.clone()))
            },
            Expr::Grouping(inner) => {
                let e: &Expr = inner;
                Expr::Grouping(Box::new(e.clone()))
            },
            Expr::Literal(Some(token)) => Expr::Literal(Some(token.clone())),
            Expr::Literal(None) => Expr::Literal(None),
            Expr::Unary(operator, operand) => {
                let e: &Expr = operand;
                Expr::Unary(operator.clone(), Box::new(e.clone()))
            },
        }
    }
}

/// One operation on expressions, with a method for each variant.
///
/// For each method the implementor may say, in the spec function beside
/// it, what a visit changes and returns; left as it is, the spec function
/// says nothing.
pub trait Visitor<R> {
    /// What `visit_binary_expr` does on a binary node.
    open spec fn binary_visited(&self, expr: &Expr, after: &Self, res: R) -> bool {
        true
    }

    /// What `visit_grouping_expr` does on a grouping node.
    open spec fn grouping_visited(&self, expr: &Expr, after: &Self, res: R) -> bool {
        true
    }

    /// What `visit_literal_expr` does on a literal node.
    open spec fn literal_visited(&self, expr: &Expr, after: &Self, res: R) -> bool {
        true
    }

    /// What `visit_unary_expr` does on a unary node.
    open spec fn unary_visited(&self, expr: &Expr, after: &Self, res: R) -> bool {
        true
    }

    fn visit_binary_expr(&mut self, expr: &Expr) -> (res: R)
        requires
            expr is Binary,
        ensures
            old(self).binary_visited(expr, final(self), res),
    ;

    fn visit_grouping_expr(&mut self, expr: &Expr) -> (res: R)
        requires
            expr is Grouping,
        ensures
            old(self).grouping_visited(expr, final(self), res),
    ;

    fn visit_literal_expr(&mut self, expr: &Expr) -> (res: R)
        requires
            expr is Literal,
        ensures
            old(self).literal_visited(expr, final(self), res),
    ;

    fn visit_unary_expr(&mut self, expr: &Expr) -> (res: R)
        requires
            expr is Unary,
        ensures
            old(self).unary_visited(expr, final(self), res),
    ;
}

/// What a visit of `expr` does: what the method for its variant does.
pub open spec fn visited<R, V: Visitor<R>>(before: &V, expr: &Expr, after: &V, res: R) -> bool {
    match expr {
        Expr::Binary(..) => before.binary_visited(expr, after, res),
        Expr::Grouping(..) => before.grouping_visited(expr, after, res),
        Expr::Literal(..) => before.literal_visited(expr, after, res),
        Expr::Unary(..) => before.unary_visited(expr, after, res),
    }
}

impl Expr {
    /// Hands the node to the method of `visitor` for its variant, and to no
    /// other.
    pub fn accept<R, V: Visitor<R>>(&self, visitor: &mut V) -> (res: R)
        ensures
            visited(old(visitor), self, final(visitor), res),
    {
        match self {
            Expr::Binary(..) => visitor.visit_binary_expr(self),
            Expr::Grouping(..) => visitor.visit_grouping_expr(self),
            Expr::Literal(..) => visitor.visit_literal_expr(self),
            Expr::Unary(..) => visitor.visit_unary_expr(self),
        }
    }
}

/// A node written as `(name child child ..)`: the name, then each child
/// after a space, in parentheses.
pub open spec fn parenthesized(name: Seq<char>, children: Seq<Seq<char>>) -> Seq<char> {
    "("@ + name + spaced(children) + ")"@
}

/// The texts one after the other, each after a space.
pub open spec fn spaced(texts: Seq<Seq<char>>) -> Seq<char>
    decreases texts.len(),
{
    if texts.len() == 0 {
        Seq::<char>::empty()
    } else {
        spaced(texts.drop_last()) + " "@ + texts.last()
    }
}

/// An expression in parenthesized prefix notation: a literal is its lexeme,
/// or `nil` where it has no token; a grouping is a node named `group`; a
/// unary or binary expression is a node named by the operator's lexeme.
pub open spec fn rendering(expr: ExprModel) -> Seq<char>
    decreases expr,
{
    match expr {
        ExprModel::Binary(left, operator, right) => parenthesized(
            operator.lexeme,
            seq![rendering(*left), rendering(*right)],
        ),
        ExprModel::Grouping(inner) => parenthesized("group"@, seq![rendering(*inner)]),
        ExprModel::Literal(Some(token)) => token.lexeme,
        ExprModel::Literal(None) => "nil"@,
        ExprModel::Unary(operator, operand) => parenthesized(
            operator.lexeme,
            seq![rendering(*operand)],
        ),
    }
}

/// The number of nodes on the longest path from this node down to a literal.
pub open spec fn height(expr: Expr) -> nat
    decreases expr,
{
    match expr {
        Expr::Binary(left, _, right) => 1 + if height(*left) >= height(*right) {
            height(*left)
        } else {
            height(*right)
        },
        Expr::Grouping(inner) => 1 + height(*inner),
        Expr::Literal(_) => 0,
        Expr::Unary(_, operand) => 1 + height(*operand),
    }
}

/// The greatest height among a sequence of expressions; 0 for none.
pub open spec fn max_height(exprs: Seq<&Expr>) -> nat
    decreases exprs.len(),
{
    if exprs.len() == 0 {
        0
    } else if max_height(exprs.drop_last()) >= height(*exprs.last()) {
        max_height(exprs.drop_last())
    } else {
        height(*exprs.last())
    }
}

/// No expression of a sequence is higher than the greatest height.
pub proof fn lemma_max_height_bounds(exprs: Seq<&Expr>, i: int)
    requires
        0 <= i < exprs.len(),
    ensures
        height(*exprs[i]) <= max_height(exprs),
    decreases exprs.len(),
{
    if i < exprs.len() - 1 {
        lemma_max_height_bounds(exprs.drop_last(), i);
    }
}

/// The greatest height after one more expression is appended.
pub proof fn lemma_max_height_push(exprs: Seq<&Expr>, expr: &Expr)
    ensures
        max_height(exprs.push(expr)) == if max_height(exprs) >= height(*expr) {
            max_height(exprs)
        } else {
            height(*expr)
        },
{
    assert(exprs.push(expr).drop_last() =~= exprs);
}

/// Renders expressions in parenthesized prefix notation.
pub struct AstPrinter;

impl Visitor<String> for AstPrinter {
    open spec fn binary_visited(&self, expr: &Expr, after: &Self, res: String) -> bool {
        res@ == rendering(expr@)
    }

    open spec fn grouping_visited(&self, expr: &Expr, after: &Self, res: String) -> bool {
        res@ == rendering(expr@)
    }

    open spec fn literal_visited(&self, expr: &Expr, after: &Self, res: String) -> bool {
        res@ == rendering(expr@)
    }

    open spec fn unary_visited(&self, expr: &Expr, after: &Self, res: String) -> bool {
        res@ == rendering(expr@)
    }

    fn visit_binary_expr(&mut self, expr: &Expr) -> (res: String)
        decreases height(*expr), 1nat,
    {
        match expr {
            Expr::Binary(left, operator, right) => {
                let mut children: Vec<&Expr> = Vec::new();
                children.push(left);
                children.push(right);
                proof {
                    lemma_max_height_push(Seq::<&Expr>::empty(), &**left);
                    lemma_max_height_push(seq![&**left], &**right);
                    assert(children@ =~= seq![&**left].push(&**right));
                    assert(seq![&**left] =~= Seq::<&Expr>::empty().push(&**left));
                    assert(renderings(children@) =~= seq![rendering(left@), rendering(right@)]);
                }
                self.parenthesize(operator.lexeme().as_str(), children)
            },
            // Not reached: the node is of the variant that the method is for.
            _ => String::new(),
        }
    }

    fn visit_grouping_expr(&mut self, expr: &Expr) -> (res: String)
        decreases height(*expr), 1nat,
    {
        match expr {
            Expr::Grouping(inner) => {
                let mut children: Vec<&Expr> = Vec::new();
                children.push(inner);
                proof {
                    lemma_max_height_push(Seq::<&Expr>::empty(), &**inner);
                    assert(children@ =~= Seq::<&Expr>::empty().push(&**inner));
                    assert(renderings(children@) =~= seq![rendering(inner@)]);
                }
                self.parenthesize("group", children)
            },
            // Not reached: the node is a grouping.
            _ => String::new(),
        }
    }

    fn visit_literal_expr(&mut self, expr: &Expr) -> (res: String)
        decreases height(*expr), 1nat,
    {
        match expr {
            Expr::Literal(Some(token)) => token.lexeme().clone(),
            _ => String::from_str("nil"),
        }
    }

    fn visit_unary_expr(&mut self, expr: &Expr) -> (res: String)
        decreases height(*expr), 1nat,
    {
        match expr {
            Expr::Unary(operator, operand) => {
                let mut children: Vec<&Expr> = Vec::new();
                children.push(operand);
                proof {
                    lemma_max_height_push(Seq::<&Expr>::empty(), &**operand);
                    assert(children@ =~= Seq::<&Expr>::empty().push(&**operand));
                    assert(renderings(children@) =~= seq![rendering(operand@)]);
                }
                self.parenthesize(operator.lexeme().as_str(), children)
            },
            // Not reached: the node is of the variant that the method is for.
            _ => String::new(),
        }
    }
}

/// The renderings of a sequence of expressions, in order.
pub open spec fn renderings(exprs: Seq<&Expr>) -> Seq<Seq<char>> {
    Seq::new(exprs.len(), |i: int| rendering(exprs[i]@))
}

impl AstPrinter {
    /// Renders `expr`.
    pub fn print(&mut self, expr: &Expr) -> (res: String)
        ensures
            res@ == rendering(expr@),
    {
        expr.accept(self)
    }

    /// Hands `expr` to the method for its variant.
    fn visit(&mut self, expr: &Expr) -> (res: String)
        ensures
            res@ == rendering(expr@),
        decreases height(*expr), 2nat,
    {
        match expr {
            Expr::Binary(..) => self.visit_binary_expr(expr),
            Expr::Grouping(..) => self.visit_grouping_expr(expr),
            Expr::Literal(..) => self.visit_literal_expr(expr),
            Expr::Unary(..) => self.visit_unary_expr(expr),
        }
    }

    /// Renders a node with the given name and children.
    pub fn parenthesize(&mut self, name: &str, exprs: Vec<&Expr>) -> (res: String)
        ensures
            res@ == parenthesized(name@, renderings(exprs@)),
        decreases max_height(exprs@), 3nat,
    {
        let mut builder = String::new();
        builder.append("(");
        builder.append(name);
        let mut i: usize = 0;
        while i < exprs.len()
            invariant
                i <= exprs@.len(),
                builder@ == "("@ + name@ + spaced(renderings(exprs@).subrange(0, i as int)),
            decreases exprs@.len() - i,
        {
            builder.append(" ");
            proof {
                lemma_max_height_bounds(exprs@, i as int);
            }
            let child = self.visit(exprs[i]);
            builder.append(child.as_str());
            i = i + 1;
            proof {
                let all = renderings(exprs@);
                assert(all.subrange(0, i as int).drop_last() =~= all.subrange(0, i - 1));
                assert(builder@ =~= "("@ + name@ + spaced(all.subrange(0, i as int)));
            }
        }
        builder.append(")");
        proof {
            let all = renderings(exprs@);
            assert(all.subrange(0, i as int) =~= all);
        }
        builder
    }
}

} // verus!
