//! The abstract syntax tree and its mathematical model.
use vstd::prelude::*;

verus! {

/// The operators with one operand.
#[derive(Debug, Clone, Copy, PartialEq, Eq, Structural)]
pub enum OpUnario {
    /// Logical negation, written `!`.
    Negacao,
    /// Arithmetic negation, written `-`.
    NegacaoAritmetica,
    /// The `print` instruction.
    Print,
}

/// The operators with two operands.
#[derive(Debug, Clone, Copy, PartialEq, Eq, Structural)]
pub enum OpBinario {
    And,
    Or,
    Soma,
    Subtracao,
    Multiplicacao,
    Divisao,
    Modulo,
    Maior,
    Menor,
    MaiorIgual,
    MenorIgual,
    IgualIgual,
    Diferente,
}

/// One syntactic construct. Each node owns its children.
///
/// A numeric literal keeps the text that the lexer read for it.
#[derive(Debug, PartialEq)]
pub enum Expr {
    Numero(String),
    String(String),
    Identificador(String),
    Assign(String, Box<Expr>),
    VarDef(String, Box<Expr>),
    Block(Vec<Expr>),
    If(Box<Expr>, Box<Expr>, Option<Box<Expr>>),
    While(Box<Expr>, Box<Expr>),
    GetAttr(Box<Expr>, String),
    Call(Box<Expr>, Vec<Expr>),
    Negacao(Box<Expr>),
    NegacaoAritmetica(Box<Expr>),
    And(Box<Expr>, Box<Expr>),
    Or(Box<Expr>, Box<Expr>),
    Soma(Box<Expr>, Box<Expr>),
    Subtracao(Box<Expr>, Box<Expr>),
    Multiplicacao(Box<Expr>, Box<Expr>),
    Divisao(Box<Expr>, Box<Expr>),
    Modulo(Box<Expr>, Box<Expr>),
    Maior(Box<Expr>, Box<Expr>),
    Menor(Box<Expr>, Box<Expr>),
    MaiorIgual(Box<Expr>, Box<Expr>),
    MenorIgual(Box<Expr>, Box<Expr>),
    IgualIgual(Box<Expr>, Box<Expr>),
    Diferente(Box<Expr>, Box<Expr>),
    Print(Box<Expr>),
}

/// The model of an `Expr`: names and texts are sequences of characters,
/// children are sequences of models, and the nodes that differ only in their
/// operator share one variant.
pub enum ExprEsp {
    Numero(Seq<char>),
    String(Seq<char>),
    Identificador(Seq<char>),
    Assign(Seq<char>, Box<ExprEsp>),
    VarDef(Seq<char>, Box<ExprEsp>),
    Block(Seq<ExprEsp>),
    If(Box<ExprEsp>, Box<ExprEsp>, Option<Box<ExprEsp>>),
    While(Box<ExprEsp>, Box<ExprEsp>),
    GetAttr(Box<ExprEsp>, Seq<char>),
    Call(Box<ExprEsp>, Seq<ExprEsp>),
    Unaria(OpUnario, Box<ExprEsp>),
    Binaria(OpBinario, Box<ExprEsp>, Box<ExprEsp>),
}

impl ExprEsp {
    pub open spec fn unaria(op: OpUnario, e: ExprEsp) -> ExprEsp {
        ExprEsp::Unaria(op, Box::new(e))
    }

    pub open spec fn binaria(op: OpBinario, a: ExprEsp, b: ExprEsp) -> ExprEsp {
        ExprEsp::Binaria(op, Box::new(a), Box::new(b))
    }
}

impl Expr {
    /// The model of this tree.
    pub open spec fn esp(self) -> ExprEsp
        decreases self,
    {
        match self {
            Expr::Numero(s) => ExprEsp::Numero(s@),
            Expr::String(s) => ExprEsp::String(s@),
            Expr::Identificador(s) => ExprEsp::Identificador(s@),
            Expr::Assign(n, e) => ExprEsp::Assign(n@, Box::new((*e).esp())),
            Expr::VarDef(n, e) => ExprEsp::VarDef(n@, Box::new((*e).esp())),
            Expr::Block(v) => ExprEsp::Block(
                Seq::new(
                    v@.len(),
                    |i: int|
                        if 0 <= i < v@.len() {
                            v@[i].esp()
                        } else {
                            ExprEsp::Block(Seq::empty())
                        },
                ),
            ),
            Expr::If(c, t, e) => ExprEsp::If(
                Box::new((*c).esp()),
                Box::new((*t).esp()),
                match e {
                    Some(x) => Some(Box::new((*x).esp())),
                    None => None,
                },
            ),
            Expr::While(c, b) => ExprEsp::While(Box::new((*c).esp()), Box::new((*b).esp())),
            Expr::GetAttr(o, n) => ExprEsp::GetAttr(Box::new((*o).esp()), n@),
            Expr::Call(f, v) => ExprEsp::Call(
                Box::new((*f).esp()),
                Seq::new(
                    v@.len(),
                    |i: int|
                        if 0 <= i < v@.len() {
                            v@[i].esp()
                        } else {
                            ExprEsp::Block(Seq::empty())
                        },
                ),
            ),
            Expr::Negacao(e) => ExprEsp::unaria(OpUnario::Negacao, (*e).esp()),
            Expr::NegacaoAritmetica(e) => ExprEsp::unaria(OpUnario::NegacaoAritmetica, (*e).esp()),
            Expr::Print(e) => ExprEsp::unaria(OpUnario::Print, (*e).esp()),
            Expr::And(a, b) => ExprEsp::binaria(OpBinario::And, (*a).esp(), (*b).esp()),
            Expr::Or(a, b) => ExprEsp::binaria(OpBinario::Or, (*a).esp(), (*b).esp()),
            Expr::Soma(a, b) => ExprEsp::binaria(OpBinario::Soma, (*a).esp(), (*b).esp()),
            Expr::Subtracao(a, b) => ExprEsp::binaria(OpBinario::Subtracao, (*a).esp(), (*b).esp()),
            Expr::Multiplicacao(a, b) => ExprEsp::binaria(
                OpBinario::Multiplicacao,
                (*a).esp(),
                (*b).esp(),
            ),
            Expr::Divisao(a, b) => ExprEsp::binaria(OpBinario::Divisao, (*a).esp(), (*b).esp()),
            Expr::Modulo(a, b) => ExprEsp::binaria(OpBinario::Modulo, (*a).esp(), (*b).esp()),
            Expr::Maior(a, b) => ExprEsp::binaria(OpBinario::Maior, (*a).esp(), (*b).esp()),
            Expr::Menor(a, b) => ExprEsp::binaria(OpBinario::Menor, (*a).esp(), (*b).esp()),
            Expr::MaiorIgual(a, b) => ExprEsp::binaria(
                OpBinario::MaiorIgual,
                (*a).esp(),
                (*b).esp(),
            ),
            Expr::MenorIgual(a, b) => ExprEsp::binaria(
                OpBinario::MenorIgual,
                (*a).esp(),
                (*b).esp(),
            ),
            Expr::IgualIgual(a, b) => ExprEsp::binaria(
                OpBinario::IgualIgual,
                (*a).esp(),
                (*b).esp(),
            ),
            Expr::Diferente(a, b) => ExprEsp::binaria(OpBinario::Diferente, (*a).esp(), (*b).esp()),
        }
    }

    /// The node that applies `op` to `a` and `b`.
    pub fn binaria(op: OpBinario, a: Expr, b: Expr) -> (e: Expr)
        ensures
            e@ == ExprEsp::binaria(op, a@, b@),
    {
        let a = Box::new(a);
        let b = Box::new(b);
        match op {
            OpBinario::And => Expr::And(a, b),
            OpBinario::Or => Expr::Or(a, b),
            OpBinario::Soma => Expr::Soma(a, b),
            OpBinario::Subtracao => Expr::Subtracao(a, b),
            OpBinario::Multiplicacao => Expr::Multiplicacao(a, b),
            OpBinario::Divisao => Expr::Divisao(a, b),
            OpBinario::Modulo => Expr::Modulo(a, b),
            OpBinario::Maior => Expr::Maior(a, b),
            OpBinario::Menor => Expr::Menor(a, b),
            OpBinario::MaiorIgual => Expr::MaiorIgual(a, b),
            OpBinario::MenorIgual => Expr::MenorIgual(a, b),
            OpBinario::IgualIgual => Expr::IgualIgual(a, b),
            OpBinario::Diferente => Expr::Diferente(a, b),
        }
    }
}

impl View for Expr {
    type V = ExprEsp;

    open spec fn view(&self) -> ExprEsp {
        self.esp()
    }
}

/// The models of a sequence of trees, one for one.
pub open spec fn modelos(v: Seq<Expr>) -> Seq<ExprEsp> {
    Seq::new(v.len(), |i: int| v[i]@)
}

/// The model of a block is the sequence of the models of its statements.
pub proof fn lema_modelo_do_bloco(v: Vec<Expr>)
    ensures
        Expr::Block(v)@ == ExprEsp::Block(modelos(v@)),
{
    assert(Expr::Block(v).esp()->Block_0 =~= modelos(v@));
}

/// The model of a call holds the sequence of the models of its arguments.
pub proof fn lema_modelo_da_chamada(f: Expr, v: Vec<Expr>)
    ensures
        Expr::Call(Box::new(f), v)@ == ExprEsp::Call(Box::new(f@), modelos(v@)),
{
    assert(Expr::Call(Box::new(f), v).esp()->Call_1 =~= modelos(v@));
}

} // verus!
