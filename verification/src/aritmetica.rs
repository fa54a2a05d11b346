//! Arithmetic expressions, written with no more parentheses than the usual
//! rules ask for, are read as they were meant and evaluated from the left.
//!
//! An arithmetic tree is made of numbers and the five arithmetic operators.
//! `escrita` writes one as symbols: a product binds tighter than a sum,
//! operators of the same level group from the left, and parentheses stand
//! only where the tree would otherwise be read differently.
//! `lema_aritmetica` says that the lexer and the parser give the tree back
//! from that text, and that the tree's value is the one that the operators
//! give when applied from the leaves up, the left operand first.
use vstd::prelude::*;
use crate::analisador_lexico::{lexico, ErroLexico, SimboloEsp};
use crate::analisador_sintatico::{
    atribuicao, atributo, binaria, chamada, declaracao, operador, operando, resto_atributo,
    resto_binaria, resto_chamada, simbolo_em, unario, Nivel,
};
use crate::arvore_sintatica_abstrata::{ExprEsp, OpBinario};
use crate::avaliador::{aritmetico, AcaoEsp};
use crate::escrita::{bem_formados, lema_reler_de, literal_numerico, texto_de, valido};
use crate::execucao::{leitura, Erro};
use crate::semantica::{avalia, lema_fundo, maior, Resultado};
use crate::valores::Valor;

verus! {

/// Whether a tree is made of numbers and arithmetic operators alone.
pub open spec fn eh_aritmetica(e: ExprEsp) -> bool
    decreases e,
{
    match e {
        ExprEsp::Numero(_) => true,
        ExprEsp::Binaria(op, a, b) => aritmetico(op) && eh_aritmetica(*a) && eh_aritmetica(*b),
        _ => false,
    }
}

/// Whether every number of an arithmetic tree has a text that the lexer
/// reads as one number.
pub open spec fn literais_validos(e: ExprEsp) -> bool
    decreases e,
{
    match e {
        ExprEsp::Numero(t) => literal_numerico(t),
        ExprEsp::Binaria(_, a, b) => literais_validos(*a) && literais_validos(*b),
        _ => true,
    }
}

/// How tightly the top of an arithmetic tree binds: 3 for a sum or a
/// difference, 4 for a product, a quotient or a remainder, 5 for a number.
pub open spec fn forca(e: ExprEsp) -> int {
    match e {
        ExprEsp::Binaria(op, _, _) => if op == OpBinario::Soma || op == OpBinario::Subtracao {
            3
        } else {
            4
        },
        _ => 5,
    }
}

/// The symbol of an arithmetic operator.
pub open spec fn simbolo_de(op: OpBinario) -> SimboloEsp {
    match op {
        OpBinario::Soma => SimboloEsp::Soma,
        OpBinario::Subtracao => SimboloEsp::Subtracao,
        OpBinario::Multiplicacao => SimboloEsp::Multiplicacao,
        OpBinario::Divisao => SimboloEsp::Divisao,
        _ => SimboloEsp::Modulo,
    }
}

/// The symbols of the arithmetic tree `e` where an expression that binds at
/// least as tightly as `l` is expected: in parentheses if `e` binds less
/// tightly. The left operand of an operator stands where its own level is
/// expected, the right operand where the next level is.
pub open spec fn escrita(e: ExprEsp, l: int) -> Seq<SimboloEsp>
    decreases e,
        (if forca(e) < l {
            1int
        } else {
            0int
        }),
{
    if forca(e) < l {
        seq![SimboloEsp::AbreParenteses] + escrita(e, 0) + seq![SimboloEsp::FechaParenteses]
    } else {
        match e {
            ExprEsp::Numero(t) => seq![SimboloEsp::Numero(t)],
            ExprEsp::Binaria(op, a, b) => escrita(*a, forca(e)) + seq![simbolo_de(op)] + escrita(
                *b,
                forca(e) + 1,
            ),
            _ => Seq::empty(),
        }
    }
}

/// The value of an arithmetic tree: that of a number is the host's reading
/// of its text, that of an operator is the host's answer for the values of
/// its operands.
pub open spec fn valor_aritmetico(e: ExprEsp, h: spec_fn(AcaoEsp) -> Valor) -> Valor
    decreases e,
{
    match e {
        ExprEsp::Numero(t) => h(AcaoEsp::Converter(t)),
        ExprEsp::Binaria(op, a, b) => h(
            AcaoEsp::Calcular(op, valor_aritmetico(*a, h), valor_aritmetico(*b, h)),
        ),
        _ => Valor::zero(),
    }
}

/// The level of binary operators with the order `l`.
pub open spec fn nivel_de(l: int) -> Nivel {
    if l <= 0 {
        Nivel::Ou
    } else if l == 1 {
        Nivel::E
    } else if l == 2 {
        Nivel::Comparacao
    } else if l == 3 {
        Nivel::Soma
    } else {
        Nivel::Produto
    }
}

/// The production that reads an expression which binds at least as tightly
/// as `l`: a level of binary operators up to 4, an attribute access beyond.
pub open spec fn producao(s: Seq<SimboloEsp>, p: int, l: int) -> Result<(ExprEsp, int), int> {
    if l <= 4 {
        binaria(s, p, nivel_de(l))
    } else {
        atributo(s, p)
    }
}

/// Whether an expression that was read where the level `l` is expected ends
/// before the symbol `t`: `t` is no operator of that level or of a tighter
/// one, no point and no opening parenthesis.
pub open spec fn para(t: Option<SimboloEsp>, l: int) -> bool {
    &&& t != Some(SimboloEsp::Ponto)
    &&& t != Some(SimboloEsp::AbreParenteses)
    &&& l <= 0 ==> operador(Nivel::Ou, t) is None
    &&& l <= 1 ==> operador(Nivel::E, t) is None
    &&& l <= 2 ==> operador(Nivel::Comparacao, t) is None
    &&& l <= 3 ==> operador(Nivel::Soma, t) is None
    &&& l <= 4 ==> operador(Nivel::Produto, t) is None
}

/// That `r` stands in `s` from the index `p` on.
pub open spec fn esta_em(s: Seq<SimboloEsp>, p: int, r: Seq<SimboloEsp>) -> bool {
    &&& 0 <= p
    &&& p + r.len() <= s.len()
    &&& s.subrange(p, p + r.len()) == r
}

proof fn lema_partes(
    s: Seq<SimboloEsp>,
    p: int,
    a: Seq<SimboloEsp>,
    x: SimboloEsp,
    b: Seq<SimboloEsp>,
)
    requires
        esta_em(s, p, a + seq![x] + b),
    ensures
        esta_em(s, p, a),
        s[p + a.len()] == x,
        esta_em(s, p + a.len() + 1, b),
{
    let r = a + seq![x] + b;
    let n = r.len() as int;
    assert forall|k: int| 0 <= k < n implies s[p + k] == #[trigger] r[k] by {
        assert(s.subrange(p, p + n)[k] == s[p + k]);
    }
    assert(s.subrange(p, p + a.len()) =~= a) by {
        assert forall|k: int| 0 <= k < a.len() implies s.subrange(p, p + a.len())[k] == a[k] by {
            assert(r[k] == a[k]);
        }
    }
    assert(r[a.len() as int] == x);
    assert(s.subrange(p + a.len() + 1, p + a.len() + 1 + b.len()) =~= b) by {
        assert forall|k: int| 0 <= k < b.len() implies s.subrange(
            p + a.len() + 1,
            p + a.len() + 1 + b.len(),
        )[k] == b[k] by {
            assert(r[a.len() + 1 + k] == b[k]);
            assert(s[p + (a.len() + 1 + k)] == r[a.len() + 1 + k]);
        }
    }
}

/// What is written for an arithmetic tree starts with a number or with an
/// opening parenthesis.
proof fn lema_primeiro(e: ExprEsp, l: int)
    requires
        eh_aritmetica(e),
    ensures
        escrita(e, l).len() > 0,
        escrita(e, l)[0] is Numero || escrita(e, l)[0] is AbreParenteses,
    decreases e,
        (if forca(e) < l {
            1int
        } else {
            0int
        }),
{
    if forca(e) < l {
        lema_primeiro(e, 0);
    } else {
        match e {
            ExprEsp::Binaria(_, a, _) => {
                lema_primeiro(*a, forca(e));
            },
            _ => {},
        }
    }
}

/// What `producao` gives; kept apart so that a proof unfolds the grammar only
/// where it means to.
#[verifier::opaque]
spec fn lida(s: Seq<SimboloEsp>, p: int, l: int) -> Result<(ExprEsp, int), int> {
    producao(s, p, l)
}

/// What follows the left operand `x` at the level of the order `l`.
#[verifier::opaque]
spec fn seguida(s: Seq<SimboloEsp>, q: int, l: int, x: ExprEsp) -> Result<
    (ExprEsp, int),
    int,
> {
    resto_binaria(s, q, nivel_de(l), x)
}

/// What `unario` gives.
#[verifier::opaque]
spec fn primaria(s: Seq<SimboloEsp>, p: int) -> Result<(ExprEsp, int), int> {
    unario(s, p)
}

/// What a unary expression gave is what every looser production gives, where
/// the next symbol ends the expression.
proof fn lema_desce(s: Seq<SimboloEsp>, p: int, l: int, x: ExprEsp, q: int)
    requires
        0 <= l <= 5,
        primaria(s, p) == Ok::<(ExprEsp, int), int>((x, q)),
        p < q <= s.len(),
        para(simbolo_em(s, q), l),
    ensures
        lida(s, p, l) == Ok::<(ExprEsp, int), int>((x, q)),
    decreases 5 - l,
{
    reveal(lida);
    reveal(primaria);
    if l == 5 {
        assert(chamada(s, p) == resto_chamada(s, q, x));
        assert(resto_chamada(s, q, x) == Ok::<(ExprEsp, int), int>((x, q)));
        assert(atributo(s, p) == resto_atributo(s, q, x));
    } else {
        lema_desce(s, p, l + 1, x, q);
        assert(operando(s, p, nivel_de(l)) == producao(s, p, l + 1));
        assert(binaria(s, p, nivel_de(l)) == resto_binaria(s, q, nivel_de(l), x));
    }
}

/// Reading at a level starts with an operand of the next level.
proof fn lema_sobe(s: Seq<SimboloEsp>, p: int, l: int, x: ExprEsp, q: int)
    requires
        0 <= l <= 4,
        lida(s, p, l + 1) == Ok::<(ExprEsp, int), int>((x, q)),
        p < q <= s.len(),
    ensures
        lida(s, p, l) == seguida(s, q, l, x),
{
    reveal(lida);
    reveal(seguida);
    assert(operando(s, p, nivel_de(l)) == producao(s, p, l + 1));
}

/// A symbol that is no operator of the level ends what follows an operand.
proof fn lema_acaba(s: Seq<SimboloEsp>, q: int, l: int, x: ExprEsp)
    requires
        0 <= l <= 4,
        operador(nivel_de(l), simbolo_em(s, q)) is None,
    ensures
        seguida(s, q, l, x) == Ok::<(ExprEsp, int), int>((x, q)),
{
    reveal(seguida);
}

/// An operator of the level and an operand of the next level join what was
/// read before, which becomes the left operand.
proof fn lema_continua(
    s: Seq<SimboloEsp>,
    q: int,
    l: int,
    a: ExprEsp,
    op: OpBinario,
    b: ExprEsp,
    q2: int,
)
    requires
        0 <= l <= 4,
        operador(nivel_de(l), simbolo_em(s, q)) == Some(op),
        lida(s, q + 1, l + 1) == Ok::<(ExprEsp, int), int>((b, q2)),
        q + 1 < q2 <= s.len(),
    ensures
        seguida(s, q, l, a) == seguida(s, q2, l, ExprEsp::binaria(op, a, b)),
{
    reveal(lida);
    reveal(seguida);
    assert(operando(s, q + 1, nivel_de(l)) == producao(s, q + 1, l + 1));
}

/// A number is a unary expression of its own.
proof fn lema_numero(s: Seq<SimboloEsp>, p: int, t: Seq<char>)
    requires
        0 <= p < s.len(),
        s[p] == SimboloEsp::Numero(t),
    ensures
        primaria(s, p) == Ok::<(ExprEsp, int), int>((ExprEsp::Numero(t), p + 1)),
{
    reveal(primaria);
}

/// An expression in parentheses is a unary expression.
proof fn lema_parenteses(s: Seq<SimboloEsp>, p: int, e: ExprEsp, q: int)
    requires
        0 <= p,
        p + 1 < q < s.len(),
        s[p] == SimboloEsp::AbreParenteses,
        s[p + 1] is Numero || s[p + 1] is AbreParenteses,
        lida(s, p + 1, 0) == Ok::<(ExprEsp, int), int>((e, q)),
        s[q] == SimboloEsp::FechaParenteses,
    ensures
        primaria(s, p) == Ok::<(ExprEsp, int), int>((e, q + 1)),
{
    reveal(lida);
    reveal(primaria);
    assert(declaracao(s, p + 1) == atribuicao(s, p + 1));
    assert(atribuicao(s, p + 1) == Ok::<(ExprEsp, int), int>((e, q)));
}

/// A statement that starts with a number or an opening parenthesis and is
/// followed by no `=` is the expression that it starts with.
proof fn lema_instrucao(s: Seq<SimboloEsp>, e: ExprEsp, q: int)
    requires
        0 < q < s.len(),
        s[0] is Numero || s[0] is AbreParenteses,
        lida(s, 0, 0) == Ok::<(ExprEsp, int), int>((e, q)),
        s[q] != SimboloEsp::Igual,
    ensures
        declaracao(s, 0) == Ok::<(ExprEsp, int), int>((e, q)),
{
    reveal(lida);
    assert(declaracao(s, 0) == atribuicao(s, 0));
}

proof fn lema_le_parenteses(e: ExprEsp, l: int, s: Seq<SimboloEsp>, p: int)
    requires
        eh_aritmetica(e),
        0 <= l <= 5,
        forca(e) < l,
        esta_em(s, p, escrita(e, l)),
        para(simbolo_em(s, p + escrita(e, l).len()), l),
    ensures
        lida(s, p, l) == Ok::<(ExprEsp, int), int>((e, p + escrita(e, l).len())),
    decreases e, 2int, 0int,
{
    let r = escrita(e, l);
    let n = r.len() as int;
    let dentro = escrita(e, 0);
    let m = dentro.len() as int;
    assert(r == seq![SimboloEsp::AbreParenteses] + dentro + seq![SimboloEsp::FechaParenteses]);
    assert(r =~= Seq::<SimboloEsp>::empty() + seq![SimboloEsp::AbreParenteses] + (dentro + seq![
        SimboloEsp::FechaParenteses,
    ]));
    lema_partes(
        s,
        p,
        Seq::empty(),
        SimboloEsp::AbreParenteses,
        dentro + seq![SimboloEsp::FechaParenteses],
    );
    assert(dentro + seq![SimboloEsp::FechaParenteses] =~= dentro + seq![
        SimboloEsp::FechaParenteses,
    ] + Seq::<SimboloEsp>::empty());
    lema_partes(s, p + 1, dentro, SimboloEsp::FechaParenteses, Seq::empty());
    lema_primeiro(e, 0);
    assert(s[p + 1] == dentro[0]) by {
        assert(s.subrange(p + 1, p + 1 + m)[0] == s[p + 1]);
    }
    lema_le(e, 0, s, p + 1);
    lema_parenteses(s, p, e, p + 1 + m);
    lema_desce(s, p, l, e, p + n);
}

proof fn lema_le_operador(
    e: ExprEsp,
    op: OpBinario,
    a: ExprEsp,
    b: ExprEsp,
    l: int,
    s: Seq<SimboloEsp>,
    p: int,
)
    requires
        eh_aritmetica(e),
        e == ExprEsp::binaria(op, a, b),
        l == forca(e),
        esta_em(s, p, escrita(e, l)),
        para(simbolo_em(s, p + escrita(e, l).len()), l + 1),
    ensures
        lida(s, p, l) == seguida(s, p + escrita(e, l).len(), l, e),
    decreases e, 0int, 0int,
{
    let ea = escrita(a, l);
    let eb = escrita(b, l + 1);
    let na = ea.len() as int;
    assert(escrita(e, l) == ea + seq![simbolo_de(op)] + eb);
    lema_partes(s, p, ea, simbolo_de(op), eb);
    lema_primeiro(b, l + 1);
    lema_cadeia(a, l, s, p);
    lema_le(b, l + 1, s, p + na + 1);
    assert(operador(nivel_de(l), simbolo_em(s, p + na)) == Some(op));
    lema_continua(s, p + na, l, a, op, b, p + na + 1 + eb.len());
}

/// The parser reads what is written for an arithmetic tree as that tree,
/// where the next symbol ends the expression.
proof fn lema_le(e: ExprEsp, l: int, s: Seq<SimboloEsp>, p: int)
    requires
        eh_aritmetica(e),
        0 <= l <= 5,
        esta_em(s, p, escrita(e, l)),
        para(simbolo_em(s, p + escrita(e, l).len()), l),
    ensures
        lida(s, p, l) == Ok::<(ExprEsp, int), int>((e, p + escrita(e, l).len())),
    decreases e,
        (if forca(e) < l {
            3int
        } else {
            1int
        }),
        5 - l,
{
    let r = escrita(e, l);
    let n = r.len() as int;
    lema_primeiro(e, l);
    if forca(e) < l {
        lema_le_parenteses(e, l, s, p);
    } else {
        match e {
            ExprEsp::Numero(t) => {
                assert(s[p] == r[0]) by {
                    assert(s.subrange(p, p + n)[0] == s[p]);
                }
                lema_numero(s, p, t);
                lema_desce(s, p, l, e, p + 1);
            },
            ExprEsp::Binaria(op, a, b) => {
                let f = forca(e);
                if l < f {
                    assert(escrita(e, l + 1) == r);
                    lema_le(e, l + 1, s, p);
                    lema_sobe(s, p, l, e, p + n);
                    lema_acaba(s, p + n, l, e);
                } else {
                    lema_le_operador(e, op, *a, *b, l, s, p);
                    lema_acaba(s, p + n, l, e);
                }
            },
            _ => {},
        }
    }
}

/// Where what is written for `e` as a left operand of the level `l` stands
/// at `p`, reading an expression of that level at `p` is reading what follows
/// `e` with `e` as the left operand.
proof fn lema_cadeia(e: ExprEsp, l: int, s: Seq<SimboloEsp>, p: int)
    requires
        eh_aritmetica(e),
        3 <= l <= 4,
        esta_em(s, p, escrita(e, l)),
        para(simbolo_em(s, p + escrita(e, l).len()), l + 1),
    ensures
        lida(s, p, l) == seguida(s, p + escrita(e, l).len(), l, e),
    decreases e, 4int, 0int,
{
    let r = escrita(e, l);
    let n = r.len() as int;
    lema_primeiro(e, l);
    if forca(e) == l {
        match e {
            ExprEsp::Binaria(op, a, b) => {
                lema_le_operador(e, op, *a, *b, l, s, p);
            },
            _ => {},
        }
    } else {
        assert(escrita(e, l + 1) == r);
        lema_le(e, l + 1, s, p);
        lema_sobe(s, p, l, e, p + n);
    }
}

/// The symbols of an arithmetic tree, closed by the end of the input, are
/// read as the statement that is the tree.
pub proof fn lema_le_instrucao(e: ExprEsp)
    requires
        eh_aritmetica(e),
    ensures
        declaracao(escrita(e, 0) + seq![SimboloEsp::Fim], 0) == Ok::<(ExprEsp, int), int>(
            (e, escrita(e, 0).len() as int),
        ),
{
    let r = escrita(e, 0);
    let s = r + seq![SimboloEsp::Fim];
    let n = r.len() as int;
    lema_primeiro(e, 0);
    assert(s.subrange(0, n) =~= r);
    assert(s[n] == SimboloEsp::Fim);
    assert(s[0] == r[0]);
    lema_le(e, 0, s, 0);
    lema_instrucao(s, e, n);
}

/// The symbols of an arithmetic tree whose numbers are well written are
/// symbols that the lexer can give.
proof fn lema_escrita_valida(e: ExprEsp, l: int)
    requires
        eh_aritmetica(e),
        literais_validos(e),
    ensures
        forall|k: int|
            0 <= k < escrita(e, l).len() ==> (#[trigger] escrita(e, l)[k]) !is Fim && valido(
                escrita(e, l)[k],
            ),
    decreases e,
        (if forca(e) < l {
            1int
        } else {
            0int
        }),
{
    if forca(e) < l {
        lema_escrita_valida(e, 0);
    } else {
        match e {
            ExprEsp::Binaria(op, a, b) => {
                lema_escrita_valida(*a, forca(e));
                lema_escrita_valida(*b, forca(e) + 1);
            },
            _ => {},
        }
    }
}

/// An arithmetic tree has a meaning, which changes neither the variables nor
/// the printed values; the lemma gives a depth that is enough.
pub proof fn lema_valor_aritmetico(
    e: ExprEsp,
    ambiente: Map<Seq<char>, Valor>,
    saida: Seq<Valor>,
    h: spec_fn(AcaoEsp) -> Valor,
) -> (n: nat)
    requires
        eh_aritmetica(e),
    ensures
        avalia(e, ambiente, saida, h, n) == Some(
            Resultado { valor: valor_aritmetico(e, h), ambiente, saida },
        ),
    decreases e,
{
    match e {
        ExprEsp::Binaria(op, a, b) => {
            let na = lema_valor_aritmetico(*a, ambiente, saida, h);
            let nb = lema_valor_aritmetico(*b, ambiente, saida, h);
            let m = maior(na, nb);
            lema_fundo(*a, ambiente, saida, h, na, m);
            lema_fundo(*b, ambiente, saida, h, nb, m);
            m + 1
        },
        _ => 1,
    }
}

/// Arithmetic is read and evaluated by the usual rules. For an arithmetic
/// tree `e` whose numbers are well written: the text of its symbols, which
/// hold only the parentheses that precedence and grouping from the left make
/// necessary, is read as `e`; and `e` has the value that its operators give
/// from the leaves up, with the variables and the printed values left as they
/// were. The lemma gives a depth that is enough.
pub proof fn lema_aritmetica(
    e: ExprEsp,
    ambiente: Map<Seq<char>, Valor>,
    saida: Seq<Valor>,
    h: spec_fn(AcaoEsp) -> Valor,
) -> (n: nat)
    requires
        eh_aritmetica(e),
        literais_validos(e),
    ensures
        leitura(texto_de(escrita(e, 0) + seq![SimboloEsp::Fim])) == Ok::<ExprEsp, Erro>(e),
        avalia(e, ambiente, saida, h, n) == Some(
            Resultado { valor: valor_aritmetico(e, h), ambiente, saida },
        ),
{
    let r = escrita(e, 0);
    let s = r + seq![SimboloEsp::Fim];
    lema_escrita_valida(e, 0);
    assert(bem_formados(s)) by {
        assert(s.last() == SimboloEsp::Fim);
        assert forall|k: int| 0 <= k < s.len() - 1 implies (#[trigger] s[k]) !is Fim && valido(
            s[k],
        ) by {
            assert(s[k] == r[k]);
        }
    }
    lema_reler_de(Seq::empty(), s);
    assert(Seq::<char>::empty() + texto_de(s) =~= texto_de(s));
    assert(lexico(texto_de(s)) == Ok::<Seq<SimboloEsp>, ErroLexico>(s));
    lema_le_instrucao(e);
    lema_valor_aritmetico(e, ambiente, saida, h)
}

} // verus!
