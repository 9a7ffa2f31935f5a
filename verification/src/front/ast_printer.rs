use crate::bytecode::number::Number;
use crate::bytecode::value::renders;
use crate::front::expr::{Call, Expr, ExprView, Literal, LiteralView};
use crate::text::{push_bytes, str_bytes, to_bytes};
use vstd::prelude::*;
use vstd::string::StringSliceAdditionalSpecFns;

verus! {

/// Shows an expression as text, with every operation in parentheses
/// before its operands.
pub struct AstPrinter {}

/// The text of an expression that has no parts: a string is its bytes, a
/// boolean `true` or `false`, `nil` is `Nil`, a variable its name, `this`
/// is `this`.
pub open spec fn leaf_text(expr: ExprView) -> Option<Seq<u8>> {
    match expr {
        ExprView::Literal { value: LiteralView::String(s) } => Some(s),
        ExprView::Literal { value: LiteralView::Bool(b) } => Some(
            if b {
                "true".spec_bytes()
            } else {
                "false".spec_bytes()
            },
        ),
        ExprView::Literal { value: LiteralView::Nil } => Some("Nil".spec_bytes()),
        ExprView::Variable { variable } => Some(variable.name.lexeme),
        ExprView::This { variable } => Some("this".spec_bytes()),
        _ => None,
    }
}

/// The text that the rendering gives for a number.
pub open spec fn number_texts<F: Fn(Number) -> Vec<u8>>(number_text: &F) -> spec_fn(Number) -> Seq<
    u8,
> {
    |number: Number| choose|text: Seq<u8>| renders(number_text, number, text)
}

/// Whether the rendering gives one text for a number.
pub open spec fn settled<F: Fn(Number) -> Vec<u8>>(number_text: &F) -> bool {
    forall|number: Number, first: Seq<u8>, second: Seq<u8>|
        renders(number_text, number, first) && renders(number_text, number, second) ==> first
            == second
}

/// The text of an expression, numbers shown as `shown` shows them: an
/// expression without parts is its own text, and every other one stands in
/// parentheses, its operator or its kind before its parts.
pub open spec fn printed(expr: &Expr, shown: spec_fn(Number) -> Seq<u8>) -> Seq<u8>
    decreases expr,
{
    match expr {
        Expr::Assign(assign) => AstPrinter::parenthesized(
            assign.variable.name.lexeme@ + " := ".spec_bytes(),
            seq![printed(&*assign.value, shown)],
        ),
        Expr::Binary(binary) => AstPrinter::parenthesized(
            binary.operator.lexeme@,
            seq![printed(&*binary.left, shown), printed(&*binary.right, shown)],
        ),
        Expr::Logical(binary) => AstPrinter::parenthesized(
            binary.operator.lexeme@,
            seq![printed(&*binary.left, shown), printed(&*binary.right, shown)],
        ),
        Expr::Call(call) => AstPrinter::parenthesized(
            "call".spec_bytes(),
            seq![printed(&*call.callee, shown)] + printed_arguments(call, shown),
        ),
        Expr::Get(get) => AstPrinter::parenthesized(
            "get".spec_bytes(),
            seq![printed(&*get.object, shown), get.name.lexeme@],
        ),
        Expr::SetExpr(set) => AstPrinter::parenthesized(
            "set".spec_bytes(),
            seq![printed(&*set.object, shown), set.name.lexeme@, printed(&*set.value, shown)],
        ),
        Expr::Grouping(grouping) => AstPrinter::parenthesized(
            "group".spec_bytes(),
            seq![printed(&*grouping.expression, shown)],
        ),
        Expr::Literal(literal) => match literal {
            Literal::String(s) => s@,
            Literal::Number(n) => shown(*n),
            Literal::Bool(b) => if *b {
                "true".spec_bytes()
            } else {
                "false".spec_bytes()
            },
            Literal::Nil => "Nil".spec_bytes(),
        },
        Expr::Super(super_expr) => AstPrinter::parenthesized(
            "super".spec_bytes(),
            seq![super_expr.method.lexeme@],
        ),
        Expr::This(_) => "this".spec_bytes(),
        Expr::Unary(unary) => AstPrinter::parenthesized(
            unary.operator.lexeme@,
            seq![printed(&*unary.right, shown)],
        ),
        Expr::Ternary(ternary) => AstPrinter::parenthesized(
            "ternary".spec_bytes(),
            seq![
                printed(&*ternary.condition, shown),
                printed(&*ternary.true_branch, shown),
                printed(&*ternary.false_branch, shown),
            ],
        ),
        Expr::Variable(variable) => variable.name.lexeme@,
    }
}

/// The texts of the arguments of a call, in their order.
pub open spec fn printed_arguments(call: &Call, shown: spec_fn(Number) -> Seq<u8>) -> Seq<Seq<u8>>
    decreases call,
{
    Seq::new(
        call.arguments@.len(),
        |i: int|
            if 0 <= i < call.arguments@.len() {
                printed(&call.arguments@[i], shown)
            } else {
                Seq::empty()
            },
    )
}

/// What each text is.
pub open spec fn texts(terms: Seq<Vec<u8>>) -> Seq<Seq<u8>> {
    terms.map_values(|term: Vec<u8>| term@)
}

impl AstPrinter {
    pub fn new() -> AstPrinter {
        AstPrinter {  }
    }

    /// The text of an expression. Numbers are shown as `number_text` shows
    /// them; where it gives one text for a number, the text of the
    /// expression is settled too.
    pub fn print<F: Fn(Number) -> Vec<u8>>(&mut self, expr: &Expr, number_text: &F) -> (text: Vec<
        u8,
    >)
        requires
            forall|number: Number| number_text.requires((number,)),
        ensures
            leaf_text(expr@) matches Some(shown) ==> text@ == shown,
            expr matches Expr::Literal(Literal::Number(n)) ==> number_text.ensures((*n,), text),
            settled(number_text) ==> text@ == printed(expr, number_texts(number_text)),
        decreases expr,
    {
        let ghost shown = number_texts(number_text);
        match expr {
            Expr::Assign(assign) => {
                let mut name: Vec<u8> = to_bytes(assign.variable.name.lexeme.as_slice());
                push_bytes(&mut name, " := ".as_bytes());
                assert(name@ =~= assign.variable.name.lexeme@ + " := ".spec_bytes());
                let value: Vec<u8> = self.print(&assign.value, number_text);
                let mut terms: Vec<Vec<u8>> = Vec::new();
                terms.push(value);
                assert(texts(terms@) =~= seq![value@]);
                Self::parenthesize(name.as_slice(), &terms)
            },
            Expr::Binary(binary) => {
                let left: Vec<u8> = self.print(&binary.left, number_text);
                let right: Vec<u8> = self.print(&binary.right, number_text);
                let mut terms: Vec<Vec<u8>> = Vec::new();
                terms.push(left);
                terms.push(right);
                assert(texts(terms@) =~= seq![left@, right@]);
                Self::parenthesize(binary.operator.lexeme.as_slice(), &terms)
            },
            Expr::Logical(binary) => {
                let left: Vec<u8> = self.print(&binary.left, number_text);
                let right: Vec<u8> = self.print(&binary.right, number_text);
                let mut terms: Vec<Vec<u8>> = Vec::new();
                terms.push(left);
                terms.push(right);
                assert(texts(terms@) =~= seq![left@, right@]);
                Self::parenthesize(binary.operator.lexeme.as_slice(), &terms)
            },
            Expr::Call(call) => {
                let mut terms: Vec<Vec<u8>> = Vec::new();
                terms.push(self.print(&call.callee, number_text));
                let mut i: usize = 0;
                while i < call.arguments.len()
                    invariant
                        i <= call.arguments@.len(),
                        expr is Call,
                        expr->Call_0 == *call,
                        shown == number_texts(number_text),
                        forall|number: Number| number_text.requires((number,)),
                        terms@.len() == i + 1,
                        settled(number_text) ==> terms@[0]@ == printed(&*call.callee, shown),
                        settled(number_text) ==> forall|k: int|
                            0 <= k < i ==> (#[trigger] terms@[k + 1])@ == printed(
                                &call.arguments@[k],
                                shown,
                            ),
                    decreases call.arguments@.len() - i,
                {
                    terms.push(self.print(&call.arguments[i], number_text));
                    i += 1;
                }
                proof {
                    if settled(number_text) {
                        assert forall|k: int| 1 <= k < terms@.len() implies texts(terms@)[k]
                            == printed(&call.arguments@[k - 1], shown) by {
                            assert(terms@[(k - 1) + 1]@ == printed(&call.arguments@[k - 1], shown));
                        }
                        assert(texts(terms@) =~= seq![printed(&*call.callee, shown)]
                            + printed_arguments(call, shown));
                    }
                }
                Self::parenthesize("call".as_bytes(), &terms)
            },
            Expr::Get(get) => {
                let mut terms: Vec<Vec<u8>> = Vec::new();
                let object: Vec<u8> = self.print(&get.object, number_text);
                terms.push(object);
                terms.push(to_bytes(get.name.lexeme.as_slice()));
                assert(texts(terms@) =~= seq![object@, get.name.lexeme@]);
                Self::parenthesize("get".as_bytes(), &terms)
            },
            Expr::SetExpr(set) => {
                let mut terms: Vec<Vec<u8>> = Vec::new();
                let object: Vec<u8> = self.print(&set.object, number_text);
                terms.push(object);
                terms.push(to_bytes(set.name.lexeme.as_slice()));
                let value: Vec<u8> = self.print(&set.value, number_text);
                terms.push(value);
                assert(texts(terms@) =~= seq![object@, set.name.lexeme@, value@]);
                Self::parenthesize("set".as_bytes(), &terms)
            },
            Expr::Grouping(grouping) => {
                let mut terms: Vec<Vec<u8>> = Vec::new();
                let inner: Vec<u8> = self.print(&grouping.expression, number_text);
                terms.push(inner);
                assert(texts(terms@) =~= seq![inner@]);
                Self::parenthesize("group".as_bytes(), &terms)
            },
            Expr::Literal(literal) => match literal {
                Literal::String(s) => to_bytes(s.as_slice()),
                Literal::Number(num) => {
                    let text: Vec<u8> = number_text(*num);
                    proof {
                        assert(renders(number_text, *num, text@));
                        let chosen = choose|t: Seq<u8>| renders(number_text, *num, t);
                        assert(renders(number_text, *num, chosen));
                    }
                    text
                },
                Literal::Bool(b) => if *b {
                    str_bytes("true")
                } else {
                    str_bytes("false")
                },
                Literal::Nil => str_bytes("Nil"),
            },
            Expr::Super(super_expr) => {
                let mut terms: Vec<Vec<u8>> = Vec::new();
                terms.push(to_bytes(super_expr.method.lexeme.as_slice()));
                assert(texts(terms@) =~= seq![super_expr.method.lexeme@]);
                Self::parenthesize("super".as_bytes(), &terms)
            },
            Expr::This(_) => str_bytes("this"),
            Expr::Unary(unary) => {
                let mut terms: Vec<Vec<u8>> = Vec::new();
                let right: Vec<u8> = self.print(&unary.right, number_text);
                terms.push(right);
                assert(texts(terms@) =~= seq![right@]);
                Self::parenthesize(unary.operator.lexeme.as_slice(), &terms)
            },
            Expr::Ternary(ternary) => {
                let mut terms: Vec<Vec<u8>> = Vec::new();
                let condition: Vec<u8> = self.print(&ternary.condition, number_text);
                let first: Vec<u8> = self.print(&ternary.true_branch, number_text);
                let second: Vec<u8> = self.print(&ternary.false_branch, number_text);
                terms.push(condition);
                terms.push(first);
                terms.push(second);
                assert(texts(terms@) =~= seq![condition@, first@, second@]);
                Self::parenthesize("ternary".as_bytes(), &terms)
            },
            Expr::Variable(variable) => to_bytes(variable.name.lexeme.as_slice()),
        }
    }

    /// The texts of terms after a name, each after a blank, all in
    /// parentheses.
    pub open spec fn parenthesized(name: Seq<u8>, terms: Seq<Seq<u8>>) -> Seq<u8> {
        "(".spec_bytes() + name + Self::spaced(terms) + ")".spec_bytes()
    }

    /// Each text after a blank.
    pub open spec fn spaced(terms: Seq<Seq<u8>>) -> Seq<u8>
        decreases terms.len(),
    {
        if terms.len() == 0 {
            Seq::empty()
        } else {
            Self::spaced(terms.drop_last()) + " ".spec_bytes() + terms.last()
        }
    }

    /// A name and the texts of its terms in parentheses.
    pub fn parenthesize(name: &[u8], terms: &Vec<Vec<u8>>) -> (text: Vec<u8>)
        ensures
            text@ == Self::parenthesized(name@, texts(terms@)),
    {
        let ghost all = texts(terms@);
        let mut text: Vec<u8> = str_bytes("(");
        push_bytes(&mut text, name);
        let mut i: usize = 0;
        assert(all.subrange(0, 0) =~= Seq::<Seq<u8>>::empty());
        while i < terms.len()
            invariant
                i <= terms@.len(),
                all == texts(terms@),
                text@ == "(".spec_bytes() + name@ + Self::spaced(all.subrange(0, i as int)),
            decreases terms@.len() - i,
        {
            let ghost before = text@;
            push_bytes(&mut text, " ".as_bytes());
            push_bytes(&mut text, terms[i].as_slice());
            proof {
                let next = all.subrange(0, i + 1);
                assert(next.drop_last() =~= all.subrange(0, i as int));
                assert(next.last() == terms@[i as int]@);
                assert(text@ =~= "(".spec_bytes() + name@ + Self::spaced(next));
            }
            i += 1;
        }
        assert(all.subrange(0, i as int) =~= all);
        push_bytes(&mut text, ")".as_bytes());
        text
    }
}

} // verus!
