//! The parser: recursive descent over a sequence of symbols.
//!
//! The grammar is given as spec functions, one for each production, over the
//! models of the symbols and a position among them. Each gives the tree that
//! was read and the position just after it, or the position at which an
//! expected symbol was missing. The methods of `Analisador` are proved to
//! compute them.
use vstd::prelude::*;
use crate::analisador_lexico::{modelos, Simbolo, SimboloEsp};
use crate::arvore_sintatica_abstrata::{
    lema_modelo_da_chamada, lema_modelo_do_bloco, modelos as arvores, Expr, ExprEsp, OpBinario,
    OpUnario,
};

verus! {

/// The five levels of binary operators, from the loosest to the tightest.
#[derive(Debug, Clone, Copy, PartialEq, Eq, Structural)]
pub enum Nivel {
    /// `or`
    Ou,
    /// `and`
    E,
    /// `>`, `<`, `>=`, `<=`, `==`, `!=`
    Comparacao,
    /// `+`, `-`
    Soma,
    /// `*`, `/`, `%`
    Produto,
}

impl Nivel {
    /// How tightly the operators of this level bind: 0 for the loosest.
    pub open spec fn ordem(self) -> int {
        match self {
            Nivel::Ou => 0,
            Nivel::E => 1,
            Nivel::Comparacao => 2,
            Nivel::Soma => 3,
            Nivel::Produto => 4,
        }
    }

    /// The level whose expressions are the operands of this one; the operands
    /// of a product are attribute accesses, which are no level of this list.
    pub open spec fn seguinte(self) -> Option<Nivel> {
        match self {
            Nivel::Ou => Some(Nivel::E),
            Nivel::E => Some(Nivel::Comparacao),
            Nivel::Comparacao => Some(Nivel::Soma),
            Nivel::Soma => Some(Nivel::Produto),
            Nivel::Produto => None,
        }
    }
}

/// The symbol at position `p`, if there is one.
pub open spec fn simbolo_em(s: Seq<SimboloEsp>, p: int) -> Option<SimboloEsp> {
    if 0 <= p < s.len() {
        Some(s[p])
    } else {
        None
    }
}

/// The operator of level `nivel` that the symbol `t` stands for, if any.
pub open spec fn operador(nivel: Nivel, t: Option<SimboloEsp>) -> Option<OpBinario> {
    match (nivel, t) {
        (Nivel::Ou, Some(SimboloEsp::Or)) => Some(OpBinario::Or),
        (Nivel::E, Some(SimboloEsp::And)) => Some(OpBinario::And),
        (Nivel::Comparacao, Some(SimboloEsp::Maior)) => Some(OpBinario::Maior),
        (Nivel::Comparacao, Some(SimboloEsp::MaiorIgual)) => Some(OpBinario::MaiorIgual),
        (Nivel::Comparacao, Some(SimboloEsp::Menor)) => Some(OpBinario::Menor),
        (Nivel::Comparacao, Some(SimboloEsp::MenorIgual)) => Some(OpBinario::MenorIgual),
        (Nivel::Comparacao, Some(SimboloEsp::IgualIgual)) => Some(OpBinario::IgualIgual),
        (Nivel::Comparacao, Some(SimboloEsp::Diferente)) => Some(OpBinario::Diferente),
        (Nivel::Soma, Some(SimboloEsp::Soma)) => Some(OpBinario::Soma),
        (Nivel::Soma, Some(SimboloEsp::Subtracao)) => Some(OpBinario::Subtracao),
        (Nivel::Produto, Some(SimboloEsp::Multiplicacao)) => Some(OpBinario::Multiplicacao),
        (Nivel::Produto, Some(SimboloEsp::Divisao)) => Some(OpBinario::Divisao),
        (Nivel::Produto, Some(SimboloEsp::Modulo)) => Some(OpBinario::Modulo),
        _ => None,
    }
}

/// The outcome `r` of a production that started at `p` among `n` symbols, kept
/// as it is when it ends after `p` and not after the last symbol. Every
/// production that succeeds does so (`lema_producoes_avancam`), so this
/// changes no outcome; it shows that the productions below, which go on from
/// where another one ended, come to an end.
pub open spec fn adiante<T>(n: nat, p: int, r: Result<(T, int), int>) -> Result<(T, int), int> {
    match r {
        Ok((_, q)) => if p < q <= n {
            r
        } else {
            Err(p)
        },
        Err(_) => r,
    }
}

/// A statement: a block, an `if`, a `while`, a declaration of a variable, or
/// an assignment expression.
pub open spec fn declaracao(s: Seq<SimboloEsp>, p: int) -> Result<(ExprEsp, int), int>
    decreases s.len() - p, 40int,
{
    match simbolo_em(s, p) {
        Some(SimboloEsp::AbreChaves) => bloco(s, p),
        Some(SimboloEsp::If) => se(s, p),
        Some(SimboloEsp::While) => enquanto(s, p),
        Some(SimboloEsp::Var) => declaracao_variavel(s, p),
        _ => atribuicao(s, p),
    }
}

/// `{`, then statements, each of which may be followed by `;`, up to `}`.
pub open spec fn bloco(s: Seq<SimboloEsp>, p: int) -> Result<(ExprEsp, int), int>
    decreases s.len() - p, 39int,
{
    if simbolo_em(s, p) == Some(SimboloEsp::AbreChaves) {
        resto_bloco(s, p + 1, Seq::empty())
    } else {
        Err(p)
    }
}

/// The rest of a block of which the statements `feitas` were read already.
pub open spec fn resto_bloco(s: Seq<SimboloEsp>, p: int, feitas: Seq<ExprEsp>) -> Result<
    (ExprEsp, int),
    int,
>
    decreases s.len() - p, 50int,
{
    match simbolo_em(s, p) {
        None => Err(p),
        Some(SimboloEsp::FechaChaves) => Ok((ExprEsp::Block(feitas), p + 1)),
        Some(SimboloEsp::PontoVirgula) => resto_bloco(s, p + 1, feitas),
        Some(_) => match adiante(s.len(), p, declaracao(s, p)) {
            Ok((d, q)) => resto_bloco(s, q, feitas.push(d)),
            Err(q) => Err(q),
        },
    }
}

/// `if`, `(`, an assignment expression, `)`, a statement, and then perhaps
/// `else` and another statement.
pub open spec fn se(s: Seq<SimboloEsp>, p: int) -> Result<(ExprEsp, int), int>
    decreases s.len() - p, 39int,
{
    if simbolo_em(s, p) != Some(SimboloEsp::If) {
        Err(p)
    } else if simbolo_em(s, p + 1) != Some(SimboloEsp::AbreParenteses) {
        Err(p + 1)
    } else {
        match adiante(s.len(), p + 2, atribuicao(s, p + 2)) {
            Err(q) => Err(q),
            Ok((condicao, q)) => if simbolo_em(s, q) != Some(SimboloEsp::FechaParenteses) {
                Err(q)
            } else {
                match adiante(s.len(), q + 1, declaracao(s, q + 1)) {
                    Err(r) => Err(r),
                    Ok((entao, r)) => if simbolo_em(s, r) == Some(SimboloEsp::Else) {
                        match declaracao(s, r + 1) {
                            Err(t) => Err(t),
                            Ok((senao, t)) => Ok(
                                (
                                    ExprEsp::If(
                                        Box::new(condicao),
                                        Box::new(entao),
                                        Some(Box::new(senao)),
                                    ),
                                    t,
                                ),
                            ),
                        }
                    } else {
                        Ok((ExprEsp::If(Box::new(condicao), Box::new(entao), None), r))
                    },
                }
            },
        }
    }
}

/// `while`, `(`, an assignment expression, `)`, a statement.
pub open spec fn enquanto(s: Seq<SimboloEsp>, p: int) -> Result<(ExprEsp, int), int>
    decreases s.len() - p, 39int,
{
    if simbolo_em(s, p) != Some(SimboloEsp::While) {
        Err(p)
    } else if simbolo_em(s, p + 1) != Some(SimboloEsp::AbreParenteses) {
        Err(p + 1)
    } else {
        match adiante(s.len(), p + 2, atribuicao(s, p + 2)) {
            Err(q) => Err(q),
            Ok((condicao, q)) => if simbolo_em(s, q) != Some(SimboloEsp::FechaParenteses) {
                Err(q)
            } else {
                match declaracao(s, q + 1) {
                    Err(r) => Err(r),
                    Ok((corpo, r)) => Ok((ExprEsp::While(Box::new(condicao), Box::new(corpo)), r)),
                }
            },
        }
    }
}

/// The text of the literal that a declaration without an initial value
/// stores.
pub open spec fn zero() -> Seq<char> {
    seq!['0']
}

/// `var`, an identifier, and then perhaps `=` and an assignment expression;
/// without them the variable starts at zero.
pub open spec fn declaracao_variavel(s: Seq<SimboloEsp>, p: int) -> Result<(ExprEsp, int), int>
    decreases s.len() - p, 39int,
{
    if simbolo_em(s, p) != Some(SimboloEsp::Var) {
        Err(p)
    } else {
        match simbolo_em(s, p + 1) {
            Some(SimboloEsp::Identificador(nome)) => if simbolo_em(s, p + 2) == Some(
                SimboloEsp::Igual,
            ) {
                match atribuicao(s, p + 3) {
                    Err(q) => Err(q),
                    Ok((valor, q)) => Ok((ExprEsp::VarDef(nome, Box::new(valor)), q)),
                }
            } else {
                Ok((ExprEsp::VarDef(nome, Box::new(ExprEsp::Numero(zero()))), p + 2))
            },
            _ => Err(p + 1),
        }
    }
}

/// An `or` expression and then, where `=` follows, the value to assign, which
/// is an assignment expression again; what stands before `=` must be a bare
/// identifier.
pub open spec fn atribuicao(s: Seq<SimboloEsp>, p: int) -> Result<(ExprEsp, int), int>
    decreases s.len() - p, 35int,
{
    match adiante(s.len(), p, binaria(s, p, Nivel::Ou)) {
        Err(q) => Err(q),
        Ok((e, q)) => if simbolo_em(s, q) == Some(SimboloEsp::Igual) {
            match e {
                ExprEsp::Identificador(nome) => match atribuicao(s, q + 1) {
                    Err(r) => Err(r),
                    Ok((valor, r)) => Ok((ExprEsp::Assign(nome, Box::new(valor)), r)),
                },
                _ => Err(q + 1),
            }
        } else {
            Ok((e, q))
        },
    }
}

/// An operand of level `nivel`: an expression of the next level, or an
/// attribute access under a product.
pub open spec fn operando(s: Seq<SimboloEsp>, p: int, nivel: Nivel) -> Result<(ExprEsp, int), int>
    decreases s.len() - p, 29 - 3 * nivel.ordem(),
{
    match nivel.seguinte() {
        Some(n) => binaria(s, p, n),
        None => atributo(s, p),
    }
}

/// Operands of level `nivel` joined by operators of that level, grouped from
/// the left.
pub open spec fn binaria(s: Seq<SimboloEsp>, p: int, nivel: Nivel) -> Result<(ExprEsp, int), int>
    decreases s.len() - p, 30 - 3 * nivel.ordem(),
{
    match adiante(s.len(), p, operando(s, p, nivel)) {
        Err(q) => Err(q),
        Ok((e, q)) => resto_binaria(s, q, nivel, e),
    }
}

/// What follows the operand `esquerda` at level `nivel`.
pub open spec fn resto_binaria(s: Seq<SimboloEsp>, p: int, nivel: Nivel, esquerda: ExprEsp) -> Result<
    (ExprEsp, int),
    int,
>
    decreases s.len() - p, 50int,
{
    match operador(nivel, simbolo_em(s, p)) {
        None => Ok((esquerda, p)),
        Some(op) => match adiante(s.len(), p + 1, operando(s, p + 1, nivel)) {
            Err(q) => Err(q),
            Ok((direita, q)) => resto_binaria(s, q, nivel, ExprEsp::binaria(op, esquerda, direita)),
        },
    }
}

/// A call expression followed by any number of `.` and identifier.
pub open spec fn atributo(s: Seq<SimboloEsp>, p: int) -> Result<(ExprEsp, int), int>
    decreases s.len() - p, 10int,
{
    match adiante(s.len(), p, chamada(s, p)) {
        Err(q) => Err(q),
        Ok((e, q)) => resto_atributo(s, q, e),
    }
}

/// What follows the object `e` of an attribute access.
pub open spec fn resto_atributo(s: Seq<SimboloEsp>, p: int, e: ExprEsp) -> Result<(ExprEsp, int), int>
    decreases s.len() - p, 50int,
{
    if simbolo_em(s, p) == Some(SimboloEsp::Ponto) {
        match simbolo_em(s, p + 1) {
            Some(SimboloEsp::Identificador(nome)) => resto_atributo(
                s,
                p + 2,
                ExprEsp::GetAttr(Box::new(e), nome),
            ),
            _ => Err(p + 1),
        }
    } else {
        Ok((e, p))
    }
}

/// A unary expression followed by any number of argument lists in
/// parentheses.
pub open spec fn chamada(s: Seq<SimboloEsp>, p: int) -> Result<(ExprEsp, int), int>
    decreases s.len() - p, 9int,
{
    match adiante(s.len(), p, unario(s, p)) {
        Err(q) => Err(q),
        Ok((e, q)) => resto_chamada(s, q, e),
    }
}

/// What follows the callee `e`.
pub open spec fn resto_chamada(s: Seq<SimboloEsp>, p: int, e: ExprEsp) -> Result<(ExprEsp, int), int>
    decreases s.len() - p, 50int,
{
    if simbolo_em(s, p) == Some(SimboloEsp::AbreParenteses) {
        match adiante(s.len(), p, argumentos(s, p + 1)) {
            Err(q) => Err(q),
            Ok((lista, q)) => resto_chamada(s, q, ExprEsp::Call(Box::new(e), lista)),
        }
    } else {
        Ok((e, p))
    }
}

/// The arguments of a call, from just after `(` up to and with `)`: nothing,
/// or statements separated by commas.
pub open spec fn argumentos(s: Seq<SimboloEsp>, p: int) -> Result<(Seq<ExprEsp>, int), int>
    decreases s.len() - p, 51int,
{
    match simbolo_em(s, p) {
        None => Err(p),
        Some(SimboloEsp::FechaParenteses) => Ok((Seq::empty(), p + 1)),
        Some(_) => match adiante(s.len(), p, declaracao(s, p)) {
            Err(q) => Err(q),
            Ok((a, q)) => resto_argumentos(s, q, seq![a]),
        },
    }
}

/// The rest of an argument list of which `feitos` were read already.
pub open spec fn resto_argumentos(s: Seq<SimboloEsp>, p: int, feitos: Seq<ExprEsp>) -> Result<
    (Seq<ExprEsp>, int),
    int,
>
    decreases s.len() - p, 51int,
{
    match simbolo_em(s, p) {
        Some(SimboloEsp::Virgula) => match adiante(s.len(), p + 1, declaracao(s, p + 1)) {
            Err(q) => Err(q),
            Ok((a, q)) => resto_argumentos(s, q, feitos.push(a)),
        },
        Some(SimboloEsp::FechaParenteses) => Ok((feitos, p + 1)),
        _ => Err(p),
    }
}

/// `!` or `-` before a unary expression; or a primary: a number, a string, an
/// identifier, or a statement in parentheses.
pub open spec fn unario(s: Seq<SimboloEsp>, p: int) -> Result<(ExprEsp, int), int>
    decreases s.len() - p, 8int,
{
    match simbolo_em(s, p) {
        Some(SimboloEsp::Negacao) => match unario(s, p + 1) {
            Err(q) => Err(q),
            Ok((e, q)) => Ok((ExprEsp::unaria(OpUnario::Negacao, e), q)),
        },
        Some(SimboloEsp::Subtracao) => match unario(s, p + 1) {
            Err(q) => Err(q),
            Ok((e, q)) => Ok((ExprEsp::unaria(OpUnario::NegacaoAritmetica, e), q)),
        },
        Some(SimboloEsp::Numero(n)) => Ok((ExprEsp::Numero(n), p + 1)),
        Some(SimboloEsp::String(t)) => Ok((ExprEsp::String(t), p + 1)),
        Some(SimboloEsp::Identificador(n)) => Ok((ExprEsp::Identificador(n), p + 1)),
        Some(SimboloEsp::AbreParenteses) => match declaracao(s, p + 1) {
            Err(q) => Err(q),
            Ok((e, q)) => if simbolo_em(s, q) == Some(SimboloEsp::FechaParenteses) {
                Ok((e, q + 1))
            } else {
                Err(q)
            },
        },
        _ => Err(p),
    }
}

/// That the outcome `r` of a production that started at `p` among `n`
/// symbols, where it is a success, ends after `p` and not after the last
/// symbol.
pub open spec fn avanca<T>(n: nat, p: int, r: Result<(T, int), int>) -> bool {
    r matches Ok((_, q)) ==> p < q <= n
}

/// The same, for what follows a part that was read already: it may end where
/// it started.
pub open spec fn nao_recua<T>(n: nat, p: int, r: Result<(T, int), int>) -> bool {
    r matches Ok((_, q)) ==> p <= q <= n
}

proof fn lema_declaracao(s: Seq<SimboloEsp>, p: int)
    requires
        0 <= p,
    ensures
        avanca(s.len(), p, declaracao(s, p)),
    decreases s.len() - p, 40int,
{
    match simbolo_em(s, p) {
        Some(SimboloEsp::AbreChaves) => lema_bloco(s, p),
        Some(SimboloEsp::If) => lema_se(s, p),
        Some(SimboloEsp::While) => lema_enquanto(s, p),
        Some(SimboloEsp::Var) => lema_declaracao_variavel(s, p),
        _ => lema_atribuicao(s, p),
    }
}

proof fn lema_bloco(s: Seq<SimboloEsp>, p: int)
    requires
        0 <= p,
    ensures
        avanca(s.len(), p, bloco(s, p)),
    decreases s.len() - p, 39int,
{
    if simbolo_em(s, p) == Some(SimboloEsp::AbreChaves) {
        lema_resto_bloco(s, p + 1, Seq::empty());
    }
}

proof fn lema_resto_bloco(s: Seq<SimboloEsp>, p: int, feitas: Seq<ExprEsp>)
    requires
        0 <= p <= s.len(),
    ensures
        nao_recua(s.len(), p, resto_bloco(s, p, feitas)),
    decreases s.len() - p, 50int,
{
    match simbolo_em(s, p) {
        None => {},
        Some(SimboloEsp::FechaChaves) => {},
        Some(SimboloEsp::PontoVirgula) => lema_resto_bloco(s, p + 1, feitas),
        Some(_) => {
            lema_declaracao(s, p);
            match adiante(s.len(), p, declaracao(s, p)) {
                Ok((d, q)) => lema_resto_bloco(s, q, feitas.push(d)),
                Err(_) => {},
            }
        },
    }
}

proof fn lema_se(s: Seq<SimboloEsp>, p: int)
    requires
        0 <= p,
    ensures
        avanca(s.len(), p, se(s, p)),
    decreases s.len() - p, 39int,
{
    if simbolo_em(s, p) == Some(SimboloEsp::If) && simbolo_em(s, p + 1) == Some(
        SimboloEsp::AbreParenteses,
    ) {
        lema_atribuicao(s, p + 2);
        match adiante(s.len(), p + 2, atribuicao(s, p + 2)) {
            Err(_) => {},
            Ok((_, q)) => {
                if simbolo_em(s, q) == Some(SimboloEsp::FechaParenteses) {
                    lema_declaracao(s, q + 1);
                    match adiante(s.len(), q + 1, declaracao(s, q + 1)) {
                        Err(_) => {},
                        Ok((_, r)) => {
                            if simbolo_em(s, r) == Some(SimboloEsp::Else) {
                                lema_declaracao(s, r + 1);
                            }
                        },
                    }
                }
            },
        }
    }
}

proof fn lema_enquanto(s: Seq<SimboloEsp>, p: int)
    requires
        0 <= p,
    ensures
        avanca(s.len(), p, enquanto(s, p)),
    decreases s.len() - p, 39int,
{
    if simbolo_em(s, p) == Some(SimboloEsp::While) && simbolo_em(s, p + 1) == Some(
        SimboloEsp::AbreParenteses,
    ) {
        lema_atribuicao(s, p + 2);
        match adiante(s.len(), p + 2, atribuicao(s, p + 2)) {
            Err(_) => {},
            Ok((_, q)) => {
                if simbolo_em(s, q) == Some(SimboloEsp::FechaParenteses) {
                    lema_declaracao(s, q + 1);
                }
            },
        }
    }
}

proof fn lema_declaracao_variavel(s: Seq<SimboloEsp>, p: int)
    requires
        0 <= p,
    ensures
        avanca(s.len(), p, declaracao_variavel(s, p)),
    decreases s.len() - p, 39int,
{
    if simbolo_em(s, p) == Some(SimboloEsp::Var) {
        match simbolo_em(s, p + 1) {
            Some(SimboloEsp::Identificador(_)) => {
                if simbolo_em(s, p + 2) == Some(SimboloEsp::Igual) {
                    lema_atribuicao(s, p + 3);
                }
            },
            _ => {},
        }
    }
}

proof fn lema_atribuicao(s: Seq<SimboloEsp>, p: int)
    requires
        0 <= p,
    ensures
        avanca(s.len(), p, atribuicao(s, p)),
    decreases s.len() - p, 35int,
{
    lema_binaria(s, p, Nivel::Ou);
    match adiante(s.len(), p, binaria(s, p, Nivel::Ou)) {
        Err(_) => {},
        Ok((e, q)) => {
            if simbolo_em(s, q) == Some(SimboloEsp::Igual) {
                match e {
                    ExprEsp::Identificador(_) => lema_atribuicao(s, q + 1),
                    _ => {},
                }
            }
        },
    }
}

proof fn lema_operando(s: Seq<SimboloEsp>, p: int, nivel: Nivel)
    requires
        0 <= p,
    ensures
        avanca(s.len(), p, operando(s, p, nivel)),
    decreases s.len() - p, 29 - 3 * nivel.ordem(),
{
    match nivel.seguinte() {
        Some(n) => lema_binaria(s, p, n),
        None => lema_atributo(s, p),
    }
}

proof fn lema_binaria(s: Seq<SimboloEsp>, p: int, nivel: Nivel)
    requires
        0 <= p,
    ensures
        avanca(s.len(), p, binaria(s, p, nivel)),
    decreases s.len() - p, 30 - 3 * nivel.ordem(),
{
    lema_operando(s, p, nivel);
    match adiante(s.len(), p, operando(s, p, nivel)) {
        Err(_) => {},
        Ok((e, q)) => lema_resto_binaria(s, q, nivel, e),
    }
}

proof fn lema_resto_binaria(s: Seq<SimboloEsp>, p: int, nivel: Nivel, esquerda: ExprEsp)
    requires
        0 <= p <= s.len(),
    ensures
        nao_recua(s.len(), p, resto_binaria(s, p, nivel, esquerda)),
    decreases s.len() - p, 50int,
{
    match operador(nivel, simbolo_em(s, p)) {
        None => {},
        Some(op) => {
            lema_operando(s, p + 1, nivel);
            match adiante(s.len(), p + 1, operando(s, p + 1, nivel)) {
                Err(_) => {},
                Ok((direita, q)) => lema_resto_binaria(
                    s,
                    q,
                    nivel,
                    ExprEsp::binaria(op, esquerda, direita),
                ),
            }
        },
    }
}

proof fn lema_atributo(s: Seq<SimboloEsp>, p: int)
    requires
        0 <= p,
    ensures
        avanca(s.len(), p, atributo(s, p)),
    decreases s.len() - p, 10int,
{
    lema_chamada(s, p);
    match adiante(s.len(), p, chamada(s, p)) {
        Err(_) => {},
        Ok((e, q)) => lema_resto_atributo(s, q, e),
    }
}

proof fn lema_resto_atributo(s: Seq<SimboloEsp>, p: int, e: ExprEsp)
    requires
        0 <= p <= s.len(),
    ensures
        nao_recua(s.len(), p, resto_atributo(s, p, e)),
    decreases s.len() - p, 50int,
{
    if simbolo_em(s, p) == Some(SimboloEsp::Ponto) {
        match simbolo_em(s, p + 1) {
            Some(SimboloEsp::Identificador(nome)) => lema_resto_atributo(
                s,
                p + 2,
                ExprEsp::GetAttr(Box::new(e), nome),
            ),
            _ => {},
        }
    }
}

proof fn lema_chamada(s: Seq<SimboloEsp>, p: int)
    requires
        0 <= p,
    ensures
        avanca(s.len(), p, chamada(s, p)),
    decreases s.len() - p, 9int,
{
    lema_unario(s, p);
    match adiante(s.len(), p, unario(s, p)) {
        Err(_) => {},
        Ok((e, q)) => lema_resto_chamada(s, q, e),
    }
}

proof fn lema_resto_chamada(s: Seq<SimboloEsp>, p: int, e: ExprEsp)
    requires
        0 <= p <= s.len(),
    ensures
        nao_recua(s.len(), p, resto_chamada(s, p, e)),
    decreases s.len() - p, 50int,
{
    if simbolo_em(s, p) == Some(SimboloEsp::AbreParenteses) {
        lema_argumentos(s, p + 1);
        match adiante(s.len(), p, argumentos(s, p + 1)) {
            Err(_) => {},
            Ok((lista, q)) => lema_resto_chamada(s, q, ExprEsp::Call(Box::new(e), lista)),
        }
    }
}

proof fn lema_argumentos(s: Seq<SimboloEsp>, p: int)
    requires
        0 <= p <= s.len(),
    ensures
        avanca(s.len(), p, argumentos(s, p)),
    decreases s.len() - p, 51int,
{
    match simbolo_em(s, p) {
        None => {},
        Some(SimboloEsp::FechaParenteses) => {},
        Some(_) => {
            lema_declaracao(s, p);
            match adiante(s.len(), p, declaracao(s, p)) {
                Err(_) => {},
                Ok((a, q)) => lema_resto_argumentos(s, q, seq![a]),
            }
        },
    }
}

proof fn lema_resto_argumentos(s: Seq<SimboloEsp>, p: int, feitos: Seq<ExprEsp>)
    requires
        0 <= p <= s.len(),
    ensures
        avanca(s.len(), p, resto_argumentos(s, p, feitos)),
    decreases s.len() - p, 51int,
{
    match simbolo_em(s, p) {
        Some(SimboloEsp::Virgula) => {
            lema_declaracao(s, p + 1);
            match adiante(s.len(), p + 1, declaracao(s, p + 1)) {
                Err(_) => {},
                Ok((a, q)) => lema_resto_argumentos(s, q, feitos.push(a)),
            }
        },
        _ => {},
    }
}

proof fn lema_unario(s: Seq<SimboloEsp>, p: int)
    requires
        0 <= p,
    ensures
        avanca(s.len(), p, unario(s, p)),
    decreases s.len() - p, 8int,
{
    match simbolo_em(s, p) {
        Some(SimboloEsp::Negacao) => lema_unario(s, p + 1),
        Some(SimboloEsp::Subtracao) => lema_unario(s, p + 1),
        Some(SimboloEsp::AbreParenteses) => lema_declaracao(s, p + 1),
        _ => {},
    }
}

/// Every production that succeeds takes at least one symbol and ends among
/// the symbols. So `adiante`, applied to the outcome of a production with the
/// position at which it started, gives that outcome back.
pub proof fn lema_producoes_avancam(s: Seq<SimboloEsp>, p: int, nivel: Nivel)
    requires
        0 <= p,
    ensures
        adiante(s.len(), p, declaracao(s, p)) == declaracao(s, p),
        adiante(s.len(), p, atribuicao(s, p)) == atribuicao(s, p),
        adiante(s.len(), p, binaria(s, p, nivel)) == binaria(s, p, nivel),
        adiante(s.len(), p, operando(s, p, nivel)) == operando(s, p, nivel),
        adiante(s.len(), p, chamada(s, p)) == chamada(s, p),
        adiante(s.len(), p, unario(s, p)) == unario(s, p),
        p < s.len() ==> adiante(s.len(), p, argumentos(s, p + 1)) == argumentos(s, p + 1),
{
    lema_declaracao(s, p);
    lema_atribuicao(s, p);
    lema_binaria(s, p, nivel);
    lema_operando(s, p, nivel);
    lema_chamada(s, p);
    lema_unario(s, p);
    if p < s.len() {
        lema_argumentos(s, p + 1);
    }
}

/// That the method's result `r` and the position `q` at which it left the
/// cursor are what the production `esperado` says.
pub open spec fn confere(r: Option<Expr>, q: int, esperado: Result<(ExprEsp, int), int>) -> bool {
    match esperado {
        Ok((e, p)) => r matches Some(x) && x@ == e && q == p,
        Err(p) => r is None && q == p,
    }
}

/// The same for a list of trees.
pub open spec fn confere_lista(
    r: Option<Vec<Expr>>,
    q: int,
    esperado: Result<(Seq<ExprEsp>, int), int>,
) -> bool {
    match esperado {
        Ok((e, p)) => r matches Some(x) && arvores(x@) == e && q == p,
        Err(p) => r is None && q == p,
    }
}

/// A cursor over a sequence of symbols.
pub struct Analisador {
    simbolos: Vec<Simbolo>,
    atual: usize,
}

fn mesmo_simbolo(a: &Simbolo, b: &Simbolo) -> (r: bool)
    ensures
        r == (a@ == b@),
{
    match (a, b) {
        (Simbolo::Numero(x), Simbolo::Numero(y)) => *x == *y,
        (Simbolo::String(x), Simbolo::String(y)) => *x == *y,
        (Simbolo::Identificador(x), Simbolo::Identificador(y)) => *x == *y,
        (Simbolo::Ponto, Simbolo::Ponto) => true,
        (Simbolo::AbreParenteses, Simbolo::AbreParenteses) => true,
        (Simbolo::FechaParenteses, Simbolo::FechaParenteses) => true,
        (Simbolo::AbreChaves, Simbolo::AbreChaves) => true,
        (Simbolo::FechaChaves, Simbolo::FechaChaves) => true,
        (Simbolo::Virgula, Simbolo::Virgula) => true,
        (Simbolo::PontoVirgula, Simbolo::PontoVirgula) => true,
        (Simbolo::Negacao, Simbolo::Negacao) => true,
        (Simbolo::Soma, Simbolo::Soma) => true,
        (Simbolo::Subtracao, Simbolo::Subtracao) => true,
        (Simbolo::Multiplicacao, Simbolo::Multiplicacao) => true,
        (Simbolo::Divisao, Simbolo::Divisao) => true,
        (Simbolo::Modulo, Simbolo::Modulo) => true,
        (Simbolo::And, Simbolo::And) => true,
        (Simbolo::Or, Simbolo::Or) => true,
        (Simbolo::Igual, Simbolo::Igual) => true,
        (Simbolo::Maior, Simbolo::Maior) => true,
        (Simbolo::Menor, Simbolo::Menor) => true,
        (Simbolo::MaiorIgual, Simbolo::MaiorIgual) => true,
        (Simbolo::MenorIgual, Simbolo::MenorIgual) => true,
        (Simbolo::IgualIgual, Simbolo::IgualIgual) => true,
        (Simbolo::Diferente, Simbolo::Diferente) => true,
        (Simbolo::Var, Simbolo::Var) => true,
        (Simbolo::If, Simbolo::If) => true,
        (Simbolo::Else, Simbolo::Else) => true,
        (Simbolo::While, Simbolo::While) => true,
        (Simbolo::Print, Simbolo::Print) => true,
        (Simbolo::Fim, Simbolo::Fim) => true,
        _ => false,
    }
}

fn operador_de(nivel: Nivel, t: Option<&Simbolo>) -> (r: Option<OpBinario>)
    ensures
        r == operador(
            nivel,
            match t {
                Some(x) => Some(x@),
                None => None,
            },
        ),
{
    match (nivel, t) {
        (Nivel::Ou, Some(Simbolo::Or)) => Some(OpBinario::Or),
        (Nivel::E, Some(Simbolo::And)) => Some(OpBinario::And),
        (Nivel::Comparacao, Some(Simbolo::Maior)) => Some(OpBinario::Maior),
        (Nivel::Comparacao, Some(Simbolo::MaiorIgual)) => Some(OpBinario::MaiorIgual),
        (Nivel::Comparacao, Some(Simbolo::Menor)) => Some(OpBinario::Menor),
        (Nivel::Comparacao, Some(Simbolo::MenorIgual)) => Some(OpBinario::MenorIgual),
        (Nivel::Comparacao, Some(Simbolo::IgualIgual)) => Some(OpBinario::IgualIgual),
        (Nivel::Comparacao, Some(Simbolo::Diferente)) => Some(OpBinario::Diferente),
        (Nivel::Soma, Some(Simbolo::Soma)) => Some(OpBinario::Soma),
        (Nivel::Soma, Some(Simbolo::Subtracao)) => Some(OpBinario::Subtracao),
        (Nivel::Produto, Some(Simbolo::Multiplicacao)) => Some(OpBinario::Multiplicacao),
        (Nivel::Produto, Some(Simbolo::Divisao)) => Some(OpBinario::Divisao),
        (Nivel::Produto, Some(Simbolo::Modulo)) => Some(OpBinario::Modulo),
        _ => None,
    }
}

impl Analisador {
    /// The models of the symbols that the cursor runs over.
    pub closed spec fn entrada(&self) -> Seq<SimboloEsp> {
        modelos(self.simbolos@)
    }

    /// The index of the symbol under the cursor.
    pub closed spec fn posicao(&self) -> int {
        self.atual as int
    }

    /// A cursor on the first of `simbolos`.
    pub fn new(simbolos: Vec<Simbolo>) -> (a: Analisador)
        ensures
            a.entrada() == modelos(simbolos@),
            a.posicao() == 0,
    {
        Analisador { simbolos, atual: 0 }
    }

    /// The index of the symbol under the cursor. After a failure this is where
    /// reading stopped: at the symbol that could not stand there.
    pub fn posicao_atual(&self) -> (p: usize)
        ensures
            p == self.posicao(),
    {
        self.atual
    }

    fn avancar(&mut self)
        ensures
            final(self).simbolos == old(self).simbolos,
            final(self).atual == if old(self).atual < old(self).simbolos@.len() {
                old(self).atual + 1
            } else {
                old(self).atual as int
            },
    {
        if self.atual < self.simbolos.len() {
            self.atual += 1;
        }
    }

    fn ver(&self) -> (r: Option<&Simbolo>)
        ensures
            match r {
                Some(x) => self.atual < self.simbolos@.len() && *x == self.simbolos@[
                    self.atual as int
                ] && simbolo_em(self.entrada(), self.posicao()) == Some(x@),
                None => self.atual >= self.simbolos@.len() && simbolo_em(
                    self.entrada(),
                    self.posicao(),
                ) is None,
            },
    {
        if self.atual < self.simbolos.len() {
            Some(&self.simbolos[self.atual])
        } else {
            None
        }
    }

    fn consumir(&mut self, esperado: &Simbolo) -> (r: bool)
        ensures
            final(self).simbolos == old(self).simbolos,
            r == (simbolo_em(old(self).entrada(), old(self).posicao()) == Some(esperado@)),
            final(self).atual == if r {
                old(self).atual + 1
            } else {
                old(self).atual as int
            },
    {
        if let Some(atual) = self.ver() {
            if mesmo_simbolo(atual, esperado) {
                self.avancar();
                return true;
            }
        }
        false
    }

    /// Reads one statement from the cursor on. `Some` is the tree of the
    /// statement, with the cursor just after it; `None` says that the
    /// statement could not be read, with the cursor where reading stopped.
    /// The symbols stay as they were.
    pub fn analisar_expressao(&mut self) -> (r: Option<Expr>)
        ensures
            final(self).entrada() == old(self).entrada(),
            confere(r, final(self).posicao(), declaracao(old(self).entrada(), old(self).posicao())),
    {
        self.analisar_declaracao()
    }

    fn analisar_declaracao(&mut self) -> (r: Option<Expr>)
        ensures
            final(self).simbolos == old(self).simbolos,
            confere(r, final(self).posicao(), declaracao(old(self).entrada(), old(self).posicao())),
            final(self).atual >= old(self).atual,
            r is Some ==> old(self).atual < final(self).atual <= final(self).simbolos@.len(),
        decreases old(self).simbolos@.len() - old(self).atual, 40int,
    {
        match self.ver() {
            Some(Simbolo::AbreChaves) => self.analisar_bloco(),
            Some(Simbolo::If) => self.analisar_if(),
            Some(Simbolo::While) => self.analisar_while(),
            Some(Simbolo::Var) => self.analisar_declaracao_variavel(),
            _ => self.analisar_atribuicao(),
        }
    }

    fn analisar_while(&mut self) -> (r: Option<Expr>)
        ensures
            final(self).simbolos == old(self).simbolos,
            confere(r, final(self).posicao(), enquanto(old(self).entrada(), old(self).posicao())),
            final(self).atual >= old(self).atual,
            r is Some ==> old(self).atual < final(self).atual <= final(self).simbolos@.len(),
        decreases old(self).simbolos@.len() - old(self).atual, 39int,
    {
        if !self.consumir(&Simbolo::While) {
            return None;
        }
        if !self.consumir(&Simbolo::AbreParenteses) {
            return None;
        }
        let condicao = match self.analisar_atribuicao() {
            Some(e) => e,
            None => {
                return None;
            },
        };
        if !self.consumir(&Simbolo::FechaParenteses) {
            return None;
        }
        let corpo = match self.analisar_declaracao() {
            Some(e) => e,
            None => {
                return None;
            },
        };
        Some(Expr::While(Box::new(condicao), Box::new(corpo)))
    }

    fn analisar_if(&mut self) -> (r: Option<Expr>)
        ensures
            final(self).simbolos == old(self).simbolos,
            confere(r, final(self).posicao(), se(old(self).entrada(), old(self).posicao())),
            final(self).atual >= old(self).atual,
            r is Some ==> old(self).atual < final(self).atual <= final(self).simbolos@.len(),
        decreases old(self).simbolos@.len() - old(self).atual, 39int,
    {
        if !self.consumir(&Simbolo::If) {
            return None;
        }
        if !self.consumir(&Simbolo::AbreParenteses) {
            return None;
        }
        let condicao = match self.analisar_atribuicao() {
            Some(e) => e,
            None => {
                return None;
            },
        };
        if !self.consumir(&Simbolo::FechaParenteses) {
            return None;
        }
        let entao = match self.analisar_declaracao() {
            Some(e) => e,
            None => {
                return None;
            },
        };
        if self.consumir(&Simbolo::Else) {
            let senao = match self.analisar_declaracao() {
                Some(e) => e,
                None => {
                    return None;
                },
            };
            Some(Expr::If(Box::new(condicao), Box::new(entao), Some(Box::new(senao))))
        } else {
            Some(Expr::If(Box::new(condicao), Box::new(entao), None))
        }
    }

    fn analisar_bloco(&mut self) -> (r: Option<Expr>)
        ensures
            final(self).simbolos == old(self).simbolos,
            confere(r, final(self).posicao(), bloco(old(self).entrada(), old(self).posicao())),
            final(self).atual >= old(self).atual,
            r is Some ==> old(self).atual < final(self).atual <= final(self).simbolos@.len(),
        decreases old(self).simbolos@.len() - old(self).atual, 39int,
    {
        if !self.consumir(&Simbolo::AbreChaves) {
            return None;
        }
        let mut declaracoes: Vec<Expr> = Vec::new();
        assert(arvores(declaracoes@) =~= Seq::empty());
        loop
            invariant
                self.simbolos == old(self).simbolos,
                old(self).atual < self.atual <= self.simbolos@.len(),
                bloco(old(self).entrada(), old(self).posicao()) == resto_bloco(
                    self.entrada(),
                    self.posicao(),
                    arvores(declaracoes@),
                ),
            decreases self.simbolos@.len() - self.atual,
        {
            match self.ver() {
                None => {
                    return None;
                },
                Some(Simbolo::FechaChaves) => {
                    self.avancar();
                    proof {
                        lema_modelo_do_bloco(declaracoes);
                    }
                    return Some(Expr::Block(declaracoes));
                },
                Some(Simbolo::PontoVirgula) => {
                    self.avancar();
                },
                Some(_) => {
                    match self.analisar_declaracao() {
                        Some(d) => {
                            let ghost antes = arvores(declaracoes@);
                            declaracoes.push(d);
                            assert(arvores(declaracoes@) =~= antes.push(d@));
                        },
                        None => {
                            return None;
                        },
                    }
                },
            }
        }
    }

    fn analisar_declaracao_variavel(&mut self) -> (r: Option<Expr>)
        ensures
            final(self).simbolos == old(self).simbolos,
            confere(
                r,
                final(self).posicao(),
                declaracao_variavel(old(self).entrada(), old(self).posicao()),
            ),
            final(self).atual >= old(self).atual,
            r is Some ==> old(self).atual < final(self).atual <= final(self).simbolos@.len(),
        decreases old(self).simbolos@.len() - old(self).atual, 39int,
    {
        if !self.consumir(&Simbolo::Var) {
            return None;
        }
        let nome = match self.ver() {
            Some(Simbolo::Identificador(nome)) => nome.clone(),
            _ => {
                return None;
            },
        };
        self.avancar();
        if self.consumir(&Simbolo::Igual) {
            let valor = match self.analisar_atribuicao() {
                Some(e) => e,
                None => {
                    return None;
                },
            };
            Some(Expr::VarDef(nome, Box::new(valor)))
        } else {
            let mut texto = String::new();
            texto.push('0');
            assert(texto@ =~= zero());
            let inicial = Expr::Numero(texto);
            assert(inicial@ == ExprEsp::Numero(zero()));
            Some(Expr::VarDef(nome, Box::new(inicial)))
        }
    }

    fn analisar_atribuicao(&mut self) -> (r: Option<Expr>)
        ensures
            final(self).simbolos == old(self).simbolos,
            confere(r, final(self).posicao(), atribuicao(old(self).entrada(), old(self).posicao())),
            final(self).atual >= old(self).atual,
            r is Some ==> old(self).atual < final(self).atual <= final(self).simbolos@.len(),
        decreases old(self).simbolos@.len() - old(self).atual, 35int,
    {
        let expr = match self.analisar_or() {
            Some(e) => e,
            None => {
                return None;
            },
        };
        if self.consumir(&Simbolo::Igual) {
            match expr {
                Expr::Identificador(nome) => {
                    let valor = match self.analisar_atribuicao() {
                        Some(e) => e,
                        None => {
                            return None;
                        },
                    };
                    Some(Expr::Assign(nome, Box::new(valor)))
                },
                _ => None,
            }
        } else {
            Some(expr)
        }
    }

    fn analisar_or(&mut self) -> (r: Option<Expr>)
        ensures
            final(self).simbolos == old(self).simbolos,
            confere(
                r,
                final(self).posicao(),
                binaria(old(self).entrada(), old(self).posicao(), Nivel::Ou),
            ),
            final(self).atual >= old(self).atual,
            r is Some ==> old(self).atual < final(self).atual <= final(self).simbolos@.len(),
        decreases old(self).simbolos@.len() - old(self).atual, 31int,
    {
        self.analisar_binaria(Nivel::Ou)
    }

    fn analisar_and(&mut self) -> (r: Option<Expr>)
        ensures
            final(self).simbolos == old(self).simbolos,
            confere(
                r,
                final(self).posicao(),
                binaria(old(self).entrada(), old(self).posicao(), Nivel::E),
            ),
            final(self).atual >= old(self).atual,
            r is Some ==> old(self).atual < final(self).atual <= final(self).simbolos@.len(),
        decreases old(self).simbolos@.len() - old(self).atual, 28int,
    {
        self.analisar_binaria(Nivel::E)
    }

    fn analisar_comparacao(&mut self) -> (r: Option<Expr>)
        ensures
            final(self).simbolos == old(self).simbolos,
            confere(
                r,
                final(self).posicao(),
                binaria(old(self).entrada(), old(self).posicao(), Nivel::Comparacao),
            ),
            final(self).atual >= old(self).atual,
            r is Some ==> old(self).atual < final(self).atual <= final(self).simbolos@.len(),
        decreases old(self).simbolos@.len() - old(self).atual, 25int,
    {
        self.analisar_binaria(Nivel::Comparacao)
    }

    fn analisar_soma(&mut self) -> (r: Option<Expr>)
        ensures
            final(self).simbolos == old(self).simbolos,
            confere(
                r,
                final(self).posicao(),
                binaria(old(self).entrada(), old(self).posicao(), Nivel::Soma),
            ),
            final(self).atual >= old(self).atual,
            r is Some ==> old(self).atual < final(self).atual <= final(self).simbolos@.len(),
        decreases old(self).simbolos@.len() - old(self).atual, 22int,
    {
        self.analisar_binaria(Nivel::Soma)
    }

    fn analisar_produto(&mut self) -> (r: Option<Expr>)
        ensures
            final(self).simbolos == old(self).simbolos,
            confere(
                r,
                final(self).posicao(),
                binaria(old(self).entrada(), old(self).posicao(), Nivel::Produto),
            ),
            final(self).atual >= old(self).atual,
            r is Some ==> old(self).atual < final(self).atual <= final(self).simbolos@.len(),
        decreases old(self).simbolos@.len() - old(self).atual, 19int,
    {
        self.analisar_binaria(Nivel::Produto)
    }

    fn analisar_operando(&mut self, nivel: Nivel) -> (r: Option<Expr>)
        ensures
            final(self).simbolos == old(self).simbolos,
            confere(
                r,
                final(self).posicao(),
                operando(old(self).entrada(), old(self).posicao(), nivel),
            ),
            final(self).atual >= old(self).atual,
            r is Some ==> old(self).atual < final(self).atual <= final(self).simbolos@.len(),
        decreases old(self).simbolos@.len() - old(self).atual, 29 - 3 * nivel.ordem(),
    {
        match nivel {
            Nivel::Ou => self.analisar_and(),
            Nivel::E => self.analisar_comparacao(),
            Nivel::Comparacao => self.analisar_soma(),
            Nivel::Soma => self.analisar_produto(),
            Nivel::Produto => self.analisar_atributo(),
        }
    }

    fn analisar_binaria(&mut self, nivel: Nivel) -> (r: Option<Expr>)
        ensures
            final(self).simbolos == old(self).simbolos,
            confere(
                r,
                final(self).posicao(),
                binaria(old(self).entrada(), old(self).posicao(), nivel),
            ),
            final(self).atual >= old(self).atual,
            r is Some ==> old(self).atual < final(self).atual <= final(self).simbolos@.len(),
        decreases old(self).simbolos@.len() - old(self).atual, 30 - 3 * nivel.ordem(),
    {
        let mut expr = match self.analisar_operando(nivel) {
            Some(e) => e,
            None => {
                return None;
            },
        };
        loop
            invariant
                self.simbolos == old(self).simbolos,
                old(self).atual < self.atual <= self.simbolos@.len(),
                binaria(old(self).entrada(), old(self).posicao(), nivel) == resto_binaria(
                    self.entrada(),
                    self.posicao(),
                    nivel,
                    expr@,
                ),
            decreases self.simbolos@.len() - self.atual,
        {
            match operador_de(nivel, self.ver()) {
                None => {
                    return Some(expr);
                },
                Some(op) => {
                    self.avancar();
                    match self.analisar_operando(nivel) {
                        Some(direita) => {
                            expr = Expr::binaria(op, expr, direita);
                        },
                        None => {
                            return None;
                        },
                    }
                },
            }
        }
    }

    fn analisar_atributo(&mut self) -> (r: Option<Expr>)
        ensures
            final(self).simbolos == old(self).simbolos,
            confere(r, final(self).posicao(), atributo(old(self).entrada(), old(self).posicao())),
            final(self).atual >= old(self).atual,
            r is Some ==> old(self).atual < final(self).atual <= final(self).simbolos@.len(),
        decreases old(self).simbolos@.len() - old(self).atual, 10int,
    {
        let mut expr = match self.analisar_chamada() {
            Some(e) => e,
            None => {
                return None;
            },
        };
        loop
            invariant
                self.simbolos == old(self).simbolos,
                old(self).atual < self.atual <= self.simbolos@.len(),
                atributo(old(self).entrada(), old(self).posicao()) == resto_atributo(
                    self.entrada(),
                    self.posicao(),
                    expr@,
                ),
            decreases self.simbolos@.len() - self.atual,
        {
            if !self.consumir(&Simbolo::Ponto) {
                return Some(expr);
            }
            let nome = match self.ver() {
                Some(Simbolo::Identificador(nome)) => nome.clone(),
                _ => {
                    return None;
                },
            };
            self.avancar();
            expr = Expr::GetAttr(Box::new(expr), nome);
        }
    }

    fn analisar_argumentos(&mut self) -> (r: Option<Vec<Expr>>)
        ensures
            final(self).simbolos == old(self).simbolos,
            confere_lista(
                r,
                final(self).posicao(),
                argumentos(old(self).entrada(), old(self).posicao()),
            ),
            final(self).atual >= old(self).atual,
            r is Some ==> old(self).atual < final(self).atual <= final(self).simbolos@.len(),
        decreases old(self).simbolos@.len() - old(self).atual, 51int,
    {
        let mut lista: Vec<Expr> = Vec::new();
        match self.ver() {
            None => {
                return None;
            },
            Some(Simbolo::FechaParenteses) => {
                self.avancar();
                assert(arvores(lista@) =~= Seq::empty());
                return Some(lista);
            },
            Some(_) => {
                match self.analisar_declaracao() {
                    Some(a) => {
                        lista.push(a);
                        assert(arvores(lista@) =~= seq![a@]);
                    },
                    None => {
                        return None;
                    },
                }
            },
        }
        loop
            invariant
                self.simbolos == old(self).simbolos,
                old(self).atual < self.atual <= self.simbolos@.len(),
                argumentos(old(self).entrada(), old(self).posicao()) == resto_argumentos(
                    self.entrada(),
                    self.posicao(),
                    arvores(lista@),
                ),
            decreases self.simbolos@.len() - self.atual,
        {
            match self.ver() {
                Some(Simbolo::Virgula) => {
                    self.avancar();
                    match self.analisar_declaracao() {
                        Some(a) => {
                            let ghost antes = arvores(lista@);
                            lista.push(a);
                            assert(arvores(lista@) =~= antes.push(a@));
                        },
                        None => {
                            return None;
                        },
                    }
                },
                Some(Simbolo::FechaParenteses) => {
                    self.avancar();
                    return Some(lista);
                },
                _ => {
                    return None;
                },
            }
        }
    }

    fn analisar_chamada(&mut self) -> (r: Option<Expr>)
        ensures
            final(self).simbolos == old(self).simbolos,
            confere(r, final(self).posicao(), chamada(old(self).entrada(), old(self).posicao())),
            final(self).atual >= old(self).atual,
            r is Some ==> old(self).atual < final(self).atual <= final(self).simbolos@.len(),
        decreases old(self).simbolos@.len() - old(self).atual, 9int,
    {
        let mut expr = match self.analisar_unario() {
            Some(e) => e,
            None => {
                return None;
            },
        };
        loop
            invariant
                self.simbolos == old(self).simbolos,
                old(self).atual < self.atual <= self.simbolos@.len(),
                chamada(old(self).entrada(), old(self).posicao()) == resto_chamada(
                    self.entrada(),
                    self.posicao(),
                    expr@,
                ),
            decreases self.simbolos@.len() - self.atual,
        {
            if !self.consumir(&Simbolo::AbreParenteses) {
                return Some(expr);
            }
            match self.analisar_argumentos() {
                Some(lista) => {
                    proof {
                        lema_modelo_da_chamada(expr, lista);
                    }
                    expr = Expr::Call(Box::new(expr), lista);
                },
                None => {
                    return None;
                },
            }
        }
    }

    fn analisar_unario(&mut self) -> (r: Option<Expr>)
        ensures
            final(self).simbolos == old(self).simbolos,
            confere(r, final(self).posicao(), unario(old(self).entrada(), old(self).posicao())),
            final(self).atual >= old(self).atual,
            r is Some ==> old(self).atual < final(self).atual <= final(self).simbolos@.len(),
        decreases old(self).simbolos@.len() - old(self).atual, 8int,
    {
        match self.ver() {
            Some(Simbolo::Negacao) => {
                self.avancar();
                match self.analisar_unario() {
                    Some(e) => Some(Expr::Negacao(Box::new(e))),
                    None => None,
                }
            },
            Some(Simbolo::Subtracao) => {
                self.avancar();
                match self.analisar_unario() {
                    Some(e) => Some(Expr::NegacaoAritmetica(Box::new(e))),
                    None => None,
                }
            },
            Some(Simbolo::Numero(n)) => {
                let valor = n.clone();
                self.avancar();
                Some(Expr::Numero(valor))
            },
            Some(Simbolo::String(s)) => {
                let valor = s.clone();
                self.avancar();
                Some(Expr::String(valor))
            },
            Some(Simbolo::Identificador(id)) => {
                let nome = id.clone();
                self.avancar();
                Some(Expr::Identificador(nome))
            },
            Some(Simbolo::AbreParenteses) => {
                self.avancar();
                let expr = match self.analisar_declaracao() {
                    Some(e) => e,
                    None => {
                        return None;
                    },
                };
                if self.consumir(&Simbolo::FechaParenteses) {
                    Some(expr)
                } else {
                    None
                }
            },
            _ => None,
        }
    }
}

} // verus!
