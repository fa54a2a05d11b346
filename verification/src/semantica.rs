//! What a tree means, and the proof that the machine of `avaliador` computes
//! it.
//!
//! `avalia` gives the value of a tree, the variables and the printed values
//! after it, by recursion over the tree. A loop of the language need not end,
//! so the recursion is bounded by a depth: a tree has a meaning where some
//! depth is enough, and then every greater depth gives the same
//! (`lema_fundo`).
//!
//! The machine and the meaning agree in both directions. Where a tree has a
//! meaning, the machine, answered by the same host, comes to an end with that
//! very outcome (`lema_maquina_segue_semantica`); and where the machine comes
//! to an end, the tree has a meaning, which the machine holds
//! (`lema_conclusao_tem_significado`).
use vstd::prelude::*;
use crate::arvore_sintatica_abstrata::{ExprEsp, OpBinario, OpUnario};
use crate::avaliador::{
    acao_esp, aritmetico, passo_esp, valor_de, AcaoEsp, EstadoEsp, ModoEsp, QuadroEsp,
};
use crate::valores::Valor;

verus! {

/// The outcome of an evaluation: the value, the variables and the printed
/// values after it.
pub struct Resultado {
    pub valor: Valor,
    pub ambiente: Map<Seq<char>, Valor>,
    pub saida: Seq<Valor>,
}

impl Resultado {
    pub open spec fn com_valor(self, v: Valor) -> Resultado {
        Resultado { valor: v, ambiente: self.ambiente, saida: self.saida }
    }
}

/// What the operator `op` makes of `v`, which is the value of `r`.
pub open spec fn aplica_unario(op: OpUnario, r: Resultado) -> Resultado {
    match op {
        OpUnario::Negacao => r.com_valor(Valor::de_bool(!r.valor.verdadeiro())),
        OpUnario::NegacaoAritmetica => r.com_valor(r.valor.oposto()),
        OpUnario::Print => Resultado {
            valor: r.valor,
            ambiente: r.ambiente,
            saida: r.saida.push(r.valor),
        },
    }
}

/// The value of `a op b` for an operator that looks at both operands: the
/// host's answer for an arithmetic operator, one or zero for a comparison.
pub open spec fn aplica_binario(
    op: OpBinario,
    a: Valor,
    b: Valor,
    h: spec_fn(AcaoEsp) -> Valor,
) -> Valor {
    if aritmetico(op) {
        h(AcaoEsp::Calcular(op, a, b))
    } else {
        Valor::de_bool(Valor::compara(op, a, b))
    }
}

/// The outcome of the tree `x` where the variables are `ambiente` and the
/// values printed so far are `saida`, with `h` the host's answers; `None`
/// where the depth `n` is not enough.
///
/// There is one set of variables for everything: a block, a branch or the
/// body of a loop has none of its own, and what is declared in one stays
/// declared after it (`lema_variaveis_ficam`).
pub open spec fn avalia(
    x: ExprEsp,
    ambiente: Map<Seq<char>, Valor>,
    saida: Seq<Valor>,
    h: spec_fn(AcaoEsp) -> Valor,
    n: nat,
) -> Option<Resultado>
    decreases n,
{
    if n == 0 {
        None
    } else {
        let m = (n - 1) as nat;
        let aqui = Resultado { valor: Valor::zero(), ambiente, saida };
        match x {
            ExprEsp::Numero(t) => Some(aqui.com_valor(h(AcaoEsp::Converter(t)))),
            ExprEsp::String(_) => Some(aqui),
            ExprEsp::Identificador(nome) => Some(aqui.com_valor(valor_de(ambiente, nome))),
            ExprEsp::Assign(nome, v) => match avalia(*v, ambiente, saida, h, m) {
                Some(r) => Some(
                    Resultado {
                        valor: r.valor,
                        ambiente: r.ambiente.insert(nome, r.valor),
                        saida: r.saida,
                    },
                ),
                None => None,
            },
            ExprEsp::VarDef(nome, v) => match avalia(*v, ambiente, saida, h, m) {
                Some(r) => Some(
                    Resultado {
                        valor: r.valor,
                        ambiente: r.ambiente.insert(nome, r.valor),
                        saida: r.saida,
                    },
                ),
                None => None,
            },
            ExprEsp::Block(s) => avalia_lista(s, 0, aqui, h, m),
            ExprEsp::If(c, t, f) => match avalia(*c, ambiente, saida, h, m) {
                Some(rc) => if rc.valor.verdadeiro() {
                    avalia(*t, rc.ambiente, rc.saida, h, m)
                } else {
                    match f {
                        Some(y) => avalia(*y, rc.ambiente, rc.saida, h, m),
                        None => Some(rc.com_valor(Valor::zero())),
                    }
                },
                None => None,
            },
            ExprEsp::While(c, b) => avalia_laco(*c, *b, aqui, h, m),
            ExprEsp::GetAttr(_, _) => Some(aqui),
            ExprEsp::Call(_, a) => match avalia_lista(a, 0, aqui, h, m) {
                Some(r) => Some(r.com_valor(Valor::zero())),
                None => None,
            },
            ExprEsp::Unaria(op, y) => match avalia(*y, ambiente, saida, h, m) {
                Some(r) => Some(aplica_unario(op, r)),
                None => None,
            },
            ExprEsp::Binaria(op, a, b) => match avalia(*a, ambiente, saida, h, m) {
                Some(ra) => if op == OpBinario::And {
                    if ra.valor.verdadeiro() {
                        avalia(*b, ra.ambiente, ra.saida, h, m)
                    } else {
                        Some(ra.com_valor(Valor::zero()))
                    }
                } else if op == OpBinario::Or {
                    if ra.valor.verdadeiro() {
                        Some(ra.com_valor(Valor::um()))
                    } else {
                        match avalia(*b, ra.ambiente, ra.saida, h, m) {
                            Some(rb) => Some(rb.com_valor(Valor::de_bool(rb.valor.verdadeiro()))),
                            None => None,
                        }
                    }
                } else {
                    match avalia(*b, ra.ambiente, ra.saida, h, m) {
                        Some(rb) => Some(rb.com_valor(aplica_binario(op, ra.valor, rb.valor, h))),
                        None => None,
                    }
                },
                None => None,
            },
        }
    }
}

/// The outcome of the members of `s` from index `i` on, one after the other,
/// where the outcome of what came before is `antes`: that of the last member,
/// or `antes` where none is left.
pub open spec fn avalia_lista(
    s: Seq<ExprEsp>,
    i: int,
    antes: Resultado,
    h: spec_fn(AcaoEsp) -> Valor,
    n: nat,
) -> Option<Resultado>
    decreases n,
{
    if n == 0 {
        None
    } else if 0 <= i < s.len() {
        match avalia(s[i], antes.ambiente, antes.saida, h, (n - 1) as nat) {
            Some(r) => avalia_lista(s, i + 1, r, h, (n - 1) as nat),
            None => None,
        }
    } else {
        Some(antes)
    }
}

/// The outcome of the loop with condition `c` and body `b`, where the outcome
/// of the turns before is `antes`: the condition is evaluated, and where it
/// is true the body, and the loop again; where it is false the loop has the
/// value of its last turn, and the variables and printed values that the
/// condition left.
pub open spec fn avalia_laco(
    c: ExprEsp,
    b: ExprEsp,
    antes: Resultado,
    h: spec_fn(AcaoEsp) -> Valor,
    n: nat,
) -> Option<Resultado>
    decreases n,
{
    if n == 0 {
        None
    } else {
        match avalia(c, antes.ambiente, antes.saida, h, (n - 1) as nat) {
            Some(rc) => if rc.valor.verdadeiro() {
                match avalia(b, rc.ambiente, rc.saida, h, (n - 1) as nat) {
                    Some(rb) => avalia_laco(c, b, rb, h, (n - 1) as nat),
                    None => None,
                }
            } else {
                Some(rc.com_valor(antes.valor))
            },
            None => None,
        }
    }
}

/// A depth that is enough stays enough: one level more gives the same
/// outcome.
pub proof fn lema_mais_fundo(
    x: ExprEsp,
    ambiente: Map<Seq<char>, Valor>,
    saida: Seq<Valor>,
    h: spec_fn(AcaoEsp) -> Valor,
    n: nat,
)
    requires
        avalia(x, ambiente, saida, h, n) is Some,
    ensures
        avalia(x, ambiente, saida, h, n + 1) == avalia(x, ambiente, saida, h, n),
    decreases n, 0int,
{
    let m = (n - 1) as nat;
    let aqui = Resultado { valor: Valor::zero(), ambiente, saida };
    match x {
        ExprEsp::Assign(_, v) => lema_mais_fundo(*v, ambiente, saida, h, m),
        ExprEsp::VarDef(_, v) => lema_mais_fundo(*v, ambiente, saida, h, m),
        ExprEsp::Block(s) => lema_lista_mais_funda(s, 0, aqui, h, m),
        ExprEsp::If(c, t, f) => {
            lema_mais_fundo(*c, ambiente, saida, h, m);
            let rc = avalia(*c, ambiente, saida, h, m)->0;
            if rc.valor.verdadeiro() {
                lema_mais_fundo(*t, rc.ambiente, rc.saida, h, m);
            } else {
                match f {
                    Some(y) => lema_mais_fundo(*y, rc.ambiente, rc.saida, h, m),
                    None => {},
                }
            }
        },
        ExprEsp::While(c, b) => lema_laco_mais_fundo(*c, *b, aqui, h, m),
        ExprEsp::Call(_, a) => lema_lista_mais_funda(a, 0, aqui, h, m),
        ExprEsp::Unaria(_, y) => lema_mais_fundo(*y, ambiente, saida, h, m),
        ExprEsp::Binaria(op, a, b) => {
            lema_mais_fundo(*a, ambiente, saida, h, m);
            let ra = avalia(*a, ambiente, saida, h, m)->0;
            if op == OpBinario::And {
                if ra.valor.verdadeiro() {
                    lema_mais_fundo(*b, ra.ambiente, ra.saida, h, m);
                }
            } else if op == OpBinario::Or {
                if !ra.valor.verdadeiro() {
                    lema_mais_fundo(*b, ra.ambiente, ra.saida, h, m);
                }
            } else {
                lema_mais_fundo(*b, ra.ambiente, ra.saida, h, m);
            }
        },
        _ => {},
    }
}

/// The same for a list.
pub proof fn lema_lista_mais_funda(
    s: Seq<ExprEsp>,
    i: int,
    antes: Resultado,
    h: spec_fn(AcaoEsp) -> Valor,
    n: nat,
)
    requires
        avalia_lista(s, i, antes, h, n) is Some,
    ensures
        avalia_lista(s, i, antes, h, n + 1) == avalia_lista(s, i, antes, h, n),
    decreases n, 1int,
{
    if 0 <= i < s.len() {
        let m = (n - 1) as nat;
        lema_mais_fundo(s[i], antes.ambiente, antes.saida, h, m);
        let r = avalia(s[i], antes.ambiente, antes.saida, h, m)->0;
        lema_lista_mais_funda(s, i + 1, r, h, m);
    }
}

/// The same for a loop.
pub proof fn lema_laco_mais_fundo(
    c: ExprEsp,
    b: ExprEsp,
    antes: Resultado,
    h: spec_fn(AcaoEsp) -> Valor,
    n: nat,
)
    requires
        avalia_laco(c, b, antes, h, n) is Some,
    ensures
        avalia_laco(c, b, antes, h, n + 1) == avalia_laco(c, b, antes, h, n),
    decreases n, 1int,
{
    let m = (n - 1) as nat;
    lema_mais_fundo(c, antes.ambiente, antes.saida, h, m);
    let rc = avalia(c, antes.ambiente, antes.saida, h, m)->0;
    if rc.valor.verdadeiro() {
        lema_mais_fundo(b, rc.ambiente, rc.saida, h, m);
        let rb = avalia(b, rc.ambiente, rc.saida, h, m)->0;
        lema_laco_mais_fundo(c, b, rb, h, m);
    }
}

/// A tree has one meaning: two depths that are enough give the same
/// outcome.
pub proof fn lema_um_so_resultado(
    x: ExprEsp,
    ambiente: Map<Seq<char>, Valor>,
    saida: Seq<Valor>,
    h: spec_fn(AcaoEsp) -> Valor,
    n: nat,
    m: nat,
)
    requires
        avalia(x, ambiente, saida, h, n) is Some,
        avalia(x, ambiente, saida, h, m) is Some,
    ensures
        avalia(x, ambiente, saida, h, n) == avalia(x, ambiente, saida, h, m),
    decreases
            if n <= m {
                m - n
            } else {
                n - m
            },
{
    if n < m {
        lema_mais_fundo(x, ambiente, saida, h, n);
        lema_um_so_resultado(x, ambiente, saida, h, n + 1, m);
    } else if m < n {
        lema_mais_fundo(x, ambiente, saida, h, m);
        lema_um_so_resultado(x, ambiente, saida, h, n, m + 1);
    }
}

/// That every variable of `antes` is a variable of `depois`.
pub open spec fn contido(antes: Map<Seq<char>, Valor>, depois: Map<Seq<char>, Valor>) -> bool {
    forall|nome: Seq<char>| #[trigger] antes.contains_key(nome) ==> depois.contains_key(nome)
}

/// No evaluation takes a variable away: the variables before a tree are
/// variables after it, wherever in the tree others were declared.
pub proof fn lema_variaveis_ficam(
    x: ExprEsp,
    ambiente: Map<Seq<char>, Valor>,
    saida: Seq<Valor>,
    h: spec_fn(AcaoEsp) -> Valor,
    n: nat,
)
    requires
        avalia(x, ambiente, saida, h, n) is Some,
    ensures
        contido(ambiente, avalia(x, ambiente, saida, h, n)->0.ambiente),
        match x {
            ExprEsp::VarDef(nome, _) => avalia(x, ambiente, saida, h, n)->0.ambiente.contains_key(nome),
            ExprEsp::Assign(nome, _) => avalia(x, ambiente, saida, h, n)->0.ambiente.contains_key(nome),
            _ => true,
        },
    decreases n, 0int,
{
    let m = (n - 1) as nat;
    let aqui = Resultado { valor: Valor::zero(), ambiente, saida };
    match x {
        ExprEsp::Assign(_, v) => lema_variaveis_ficam(*v, ambiente, saida, h, m),
        ExprEsp::VarDef(_, v) => lema_variaveis_ficam(*v, ambiente, saida, h, m),
        ExprEsp::Block(s) => lema_variaveis_ficam_na_lista(s, 0, aqui, h, m),
        ExprEsp::If(c, t, f) => {
            lema_variaveis_ficam(*c, ambiente, saida, h, m);
            let rc = avalia(*c, ambiente, saida, h, m)->0;
            if rc.valor.verdadeiro() {
                lema_variaveis_ficam(*t, rc.ambiente, rc.saida, h, m);
            } else {
                match f {
                    Some(y) => lema_variaveis_ficam(*y, rc.ambiente, rc.saida, h, m),
                    None => {},
                }
            }
        },
        ExprEsp::While(c, b) => lema_variaveis_ficam_no_laco(*c, *b, aqui, h, m),
        ExprEsp::Call(_, a) => lema_variaveis_ficam_na_lista(a, 0, aqui, h, m),
        ExprEsp::Unaria(_, y) => lema_variaveis_ficam(*y, ambiente, saida, h, m),
        ExprEsp::Binaria(op, a, b) => {
            lema_variaveis_ficam(*a, ambiente, saida, h, m);
            let ra = avalia(*a, ambiente, saida, h, m)->0;
            if op == OpBinario::And {
                if ra.valor.verdadeiro() {
                    lema_variaveis_ficam(*b, ra.ambiente, ra.saida, h, m);
                }
            } else if op == OpBinario::Or {
                if !ra.valor.verdadeiro() {
                    lema_variaveis_ficam(*b, ra.ambiente, ra.saida, h, m);
                }
            } else {
                lema_variaveis_ficam(*b, ra.ambiente, ra.saida, h, m);
            }
        },
        _ => {},
    }
}

/// The same for a list.
pub proof fn lema_variaveis_ficam_na_lista(
    s: Seq<ExprEsp>,
    i: int,
    antes: Resultado,
    h: spec_fn(AcaoEsp) -> Valor,
    n: nat,
)
    requires
        avalia_lista(s, i, antes, h, n) is Some,
    ensures
        contido(antes.ambiente, avalia_lista(s, i, antes, h, n)->0.ambiente),
    decreases n, 1int,
{
    if 0 <= i < s.len() {
        let m = (n - 1) as nat;
        lema_variaveis_ficam(s[i], antes.ambiente, antes.saida, h, m);
        let r = avalia(s[i], antes.ambiente, antes.saida, h, m)->0;
        lema_variaveis_ficam_na_lista(s, i + 1, r, h, m);
    }
}

/// The same for a loop.
pub proof fn lema_variaveis_ficam_no_laco(
    c: ExprEsp,
    b: ExprEsp,
    antes: Resultado,
    h: spec_fn(AcaoEsp) -> Valor,
    n: nat,
)
    requires
        avalia_laco(c, b, antes, h, n) is Some,
    ensures
        contido(antes.ambiente, avalia_laco(c, b, antes, h, n)->0.ambiente),
    decreases n, 1int,
{
    let m = (n - 1) as nat;
    lema_variaveis_ficam(c, antes.ambiente, antes.saida, h, m);
    let rc = avalia(c, antes.ambiente, antes.saida, h, m)->0;
    if rc.valor.verdadeiro() {
        lema_variaveis_ficam(b, rc.ambiente, rc.saida, h, m);
        let rb = avalia(b, rc.ambiente, rc.saida, h, m)->0;
        lema_variaveis_ficam_no_laco(c, b, rb, h, m);
    }
}

/// One step of the machine with the host's answer to what it asks.
pub open spec fn um_passo(e: EstadoEsp, h: spec_fn(AcaoEsp) -> Valor) -> EstadoEsp {
    passo_esp(e, h(acao_esp(e)))
}

/// The state of the machine after `n` such steps.
pub open spec fn corre(e: EstadoEsp, h: spec_fn(AcaoEsp) -> Valor, n: nat) -> EstadoEsp
    decreases n,
{
    if n == 0 {
        e
    } else {
        corre(um_passo(e, h), h, (n - 1) as nat)
    }
}

/// The machine `e` about to hand on the value of `r`, with the variables and
/// the printed values of `r`.
pub open spec fn chegada(e: EstadoEsp, r: Resultado) -> EstadoEsp {
    EstadoEsp {
        modo: ModoEsp::Retornar(r.valor),
        pilha: e.pilha,
        ambiente: r.ambiente,
        saida: r.saida,
    }
}

/// The outcome that the machine `e` holds.
pub open spec fn situacao(e: EstadoEsp) -> Resultado {
    Resultado { valor: Valor::zero(), ambiente: e.ambiente, saida: e.saida }
}

/// Steps add up.
pub proof fn lema_corre_soma(e: EstadoEsp, h: spec_fn(AcaoEsp) -> Valor, a: nat, b: nat)
    ensures
        corre(e, h, a + b) == corre(corre(e, h, a), h, b),
    decreases a,
{
    if a > 0 {
        lema_corre_soma(um_passo(e, h), h, (a - 1) as nat, b);
        assert((a + b - 1) as nat == (a - 1) as nat + b);
    }
}

proof fn lema_mais_um(e: EstadoEsp, h: spec_fn(AcaoEsp) -> Valor, k: nat)
    ensures
        corre(e, h, k + 1) == um_passo(corre(e, h, k), h),
{
    lema_corre_soma(e, h, k, 1);
    reveal_with_fuel(corre, 2);
}

proof fn lema_retomar(e: EstadoEsp, q: QuadroEsp, r: Resultado, h: spec_fn(AcaoEsp) -> Valor)
    ensures
        um_passo(chegada(e.empilhar(q), r), h) == crate::avaliador::retomar_esp(
            chegada(e, r),
            q,
            r.valor,
        ),
{
    assert(e.pilha.push(q).drop_last() =~= e.pilha);
    assert(chegada(e.empilhar(q), r).desempilhar() == chegada(e, r));
}

/// The machine computes what `avalia` says: from the state `e`, set to
/// evaluate `x`, it comes in `k` steps to hand on the value of `x` to the
/// stack of `e`, with the variables and printed values that `x` leaves.
pub proof fn lema_avalia(x: ExprEsp, e: EstadoEsp, h: spec_fn(AcaoEsp) -> Valor, n: nat) -> (k:
    nat)
    requires
        avalia(x, e.ambiente, e.saida, h, n) is Some,
    ensures
        corre(e.avaliar(x), h, k) == chegada(e, avalia(x, e.ambiente, e.saida, h, n)->0),
    decreases n, 0int,
{
    let s0 = e.avaliar(x);
    let m = (n - 1) as nat;
    let aqui = situacao(e);
    let s1 = um_passo(s0, h);
    lema_mais_um(s0, h, 0);
    assert(corre(s0, h, 1) == s1);
    match x {
        ExprEsp::Numero(t) => {
            lema_mais_um(s0, h, 1);
            2
        },
        ExprEsp::String(_) => 1,
        ExprEsp::Identificador(_) => 1,
        ExprEsp::Assign(nome, v) => {
            let q = QuadroEsp::Guardar(nome);
            let r = avalia(*v, e.ambiente, e.saida, h, m)->0;
            let k1 = lema_avalia(*v, e.empilhar(q), h, m);
            lema_corre_soma(s0, h, 1, k1);
            lema_mais_um(s0, h, 1 + k1);
            lema_retomar(e, q, r, h);
            1 + k1 + 1
        },
        ExprEsp::VarDef(nome, v) => {
            let q = QuadroEsp::Guardar(nome);
            let r = avalia(*v, e.ambiente, e.saida, h, m)->0;
            let k1 = lema_avalia(*v, e.empilhar(q), h, m);
            lema_corre_soma(s0, h, 1, k1);
            lema_mais_um(s0, h, 1 + k1);
            lema_retomar(e, q, r, h);
            1 + k1 + 1
        },
        ExprEsp::Block(s) => {
            if s.len() == 0 {
                1
            } else {
                let q = QuadroEsp::Bloco(s, 1);
                reveal_with_fuel(avalia, 2);
                assert(m > 0);
                let r0 = avalia(s[0], e.ambiente, e.saida, h, (m - 1) as nat)->0;
                let k1 = lema_avalia(s[0], e.empilhar(q), h, (m - 1) as nat);
                lema_corre_soma(s0, h, 1, k1);
                let k2 = lema_lista(s, 1, false, r0, e, h, (m - 1) as nat);
                lema_corre_soma(s0, h, 1 + k1, k2);
                1 + k1 + k2
            }
        },
        ExprEsp::If(c, t, f) => {
            let q = QuadroEsp::Escolher(*t, f);
            let rc = avalia(*c, e.ambiente, e.saida, h, m)->0;
            let k1 = lema_avalia(*c, e.empilhar(q), h, m);
            lema_corre_soma(s0, h, 1, k1);
            lema_mais_um(s0, h, 1 + k1);
            lema_retomar(e, q, rc, h);
            let e2 = chegada(e, rc);
            if rc.valor.verdadeiro() {
                let k2 = lema_avalia(*t, e2, h, m);
                lema_corre_soma(s0, h, 1 + k1 + 1, k2);
                1 + k1 + 1 + k2
            } else {
                match f {
                    Some(y) => {
                        let k2 = lema_avalia(*y, e2, h, m);
                        lema_corre_soma(s0, h, 1 + k1 + 1, k2);
                        1 + k1 + 1 + k2
                    },
                    None => 1 + k1 + 1,
                }
            }
        },
        ExprEsp::While(c, b) => {
            let k1 = lema_laco(*c, *b, aqui, e, h, m);
            lema_corre_soma(s0, h, 1, k1);
            1 + k1
        },
        ExprEsp::GetAttr(_, _) => 1,
        ExprEsp::Call(_, a) => {
            if a.len() == 0 {
                1
            } else {
                let q = QuadroEsp::Argumentos(a, 1);
                reveal_with_fuel(avalia, 2);
                assert(m > 0);
                let r0 = avalia(a[0], e.ambiente, e.saida, h, (m - 1) as nat)->0;
                let k1 = lema_avalia(a[0], e.empilhar(q), h, (m - 1) as nat);
                lema_corre_soma(s0, h, 1, k1);
                let k2 = lema_lista(a, 1, true, r0, e, h, (m - 1) as nat);
                lema_corre_soma(s0, h, 1 + k1, k2);
                1 + k1 + k2
            }
        },
        ExprEsp::Unaria(op, y) => {
            let q = QuadroEsp::Unario(op);
            let r = avalia(*y, e.ambiente, e.saida, h, m)->0;
            let k1 = lema_avalia(*y, e.empilhar(q), h, m);
            lema_corre_soma(s0, h, 1, k1);
            lema_mais_um(s0, h, 1 + k1);
            lema_retomar(e, q, r, h);
            1 + k1 + 1
        },
        ExprEsp::Binaria(op, a, b) => {
            let q = QuadroEsp::Direita(op, *b);
            let ra = avalia(*a, e.ambiente, e.saida, h, m)->0;
            let k1 = lema_avalia(*a, e.empilhar(q), h, m);
            lema_corre_soma(s0, h, 1, k1);
            lema_mais_um(s0, h, 1 + k1);
            lema_retomar(e, q, ra, h);
            let e2 = chegada(e, ra);
            if op == OpBinario::And {
                if ra.valor.verdadeiro() {
                    let k2 = lema_avalia(*b, e2, h, m);
                    lema_corre_soma(s0, h, 1 + k1 + 1, k2);
                    1 + k1 + 1 + k2
                } else {
                    1 + k1 + 1
                }
            } else if op == OpBinario::Or {
                if ra.valor.verdadeiro() {
                    1 + k1 + 1
                } else {
                    let q2 = QuadroEsp::Normalizar;
                    let rb = avalia(*b, ra.ambiente, ra.saida, h, m)->0;
                    let k2 = lema_avalia(*b, e2.empilhar(q2), h, m);
                    lema_corre_soma(s0, h, 1 + k1 + 1, k2);
                    lema_mais_um(s0, h, 1 + k1 + 1 + k2);
                    lema_retomar(e2, q2, rb, h);
                    1 + k1 + 1 + k2 + 1
                }
            } else {
                let q2 = QuadroEsp::Operar(op, ra.valor);
                let rb = avalia(*b, ra.ambiente, ra.saida, h, m)->0;
                let k2 = lema_avalia(*b, e2.empilhar(q2), h, m);
                lema_corre_soma(s0, h, 1 + k1 + 1, k2);
                lema_mais_um(s0, h, 1 + k1 + 1 + k2);
                lema_retomar(e2, q2, rb, h);
                if aritmetico(op) {
                    lema_mais_um(s0, h, 1 + k1 + 1 + k2 + 1);
                    1 + k1 + 1 + k2 + 1 + 1
                } else {
                    1 + k1 + 1 + k2 + 1
                }
            }
        },
    }
}

/// The frame of a list: that of a block, or that of the arguments of a call.
pub open spec fn quadro_da_lista(s: Seq<ExprEsp>, i: int, chamada: bool) -> QuadroEsp {
    if chamada {
        QuadroEsp::Argumentos(s, i)
    } else {
        QuadroEsp::Bloco(s, i)
    }
}

/// The machine goes through a list as `avalia_lista` says: from the state in
/// which it hands the value of `antes` to the frame of the list at index `i`,
/// it comes in `k` steps to hand on the value of the list to the stack of
/// `e`: that of its last member for a block, zero for the arguments of a
/// call.
pub proof fn lema_lista(
    s: Seq<ExprEsp>,
    i: int,
    chamada: bool,
    antes: Resultado,
    e: EstadoEsp,
    h: spec_fn(AcaoEsp) -> Valor,
    n: nat,
) -> (k: nat)
    requires
        0 <= i,
        avalia_lista(s, i, antes, h, n) is Some,
    ensures
        ({
            let r = avalia_lista(s, i, antes, h, n)->0;
            corre(chegada(e.empilhar(quadro_da_lista(s, i, chamada)), antes), h, k) == chegada(
                e,
                if chamada {
                    r.com_valor(Valor::zero())
                } else {
                    r
                },
            )
        }),
    decreases n, 1int,
{
    let q = quadro_da_lista(s, i, chamada);
    let s0 = chegada(e.empilhar(q), antes);
    lema_mais_um(s0, h, 0);
    lema_retomar(e, q, antes, h);
    if i < s.len() {
        let m = (n - 1) as nat;
        let q2 = quadro_da_lista(s, i + 1, chamada);
        let e1 = chegada(e, antes);
        let r = avalia(s[i], antes.ambiente, antes.saida, h, m)->0;
        let k1 = lema_avalia(s[i], e1.empilhar(q2), h, m);
        lema_corre_soma(s0, h, 1, k1);
        assert(chegada(e1.empilhar(q2), r) == chegada(e.empilhar(q2), r));
        let k2 = lema_lista(s, i + 1, chamada, r, e, h, m);
        lema_corre_soma(s0, h, 1 + k1, k2);
        1 + k1 + k2
    } else {
        1
    }
}

/// The machine goes through a loop as `avalia_laco` says: from the state in
/// which it is set to evaluate the condition, with the frame of the
/// condition on top of the stack of `e`, it comes in `k` steps to hand on the
/// value of the loop to the stack of `e`.
pub proof fn lema_laco(
    c: ExprEsp,
    b: ExprEsp,
    antes: Resultado,
    e: EstadoEsp,
    h: spec_fn(AcaoEsp) -> Valor,
    n: nat,
) -> (k: nat)
    requires
        antes.ambiente == e.ambiente,
        antes.saida == e.saida,
        avalia_laco(c, b, antes, h, n) is Some,
    ensures
        corre(e.empilhar(QuadroEsp::Condicao(c, b, antes.valor)).avaliar(c), h, k) == chegada(
            e,
            avalia_laco(c, b, antes, h, n)->0,
        ),
    decreases n, 1int,
{
    let m = (n - 1) as nat;
    let q = QuadroEsp::Condicao(c, b, antes.valor);
    let s0 = e.empilhar(q).avaliar(c);
    let rc = avalia(c, e.ambiente, e.saida, h, m)->0;
    let k1 = lema_avalia(c, e.empilhar(q), h, m);
    lema_mais_um(s0, h, k1);
    lema_retomar(e, q, rc, h);
    if rc.valor.verdadeiro() {
        let e2 = chegada(e, rc);
        let q2 = QuadroEsp::Corpo(c, b);
        let rb = avalia(b, rc.ambiente, rc.saida, h, m)->0;
        let k2 = lema_avalia(b, e2.empilhar(q2), h, m);
        lema_corre_soma(s0, h, k1 + 1, k2);
        lema_mais_um(s0, h, k1 + 1 + k2);
        lema_retomar(e2, q2, rb, h);
        let e3 = chegada(e, rb);
        let k3 = lema_laco(c, b, rb, e3, h, m);
        assert(e3.empilhar(QuadroEsp::Condicao(c, b, rb.valor)).avaliar(c) == chegada(e2, rb).empilhar(
            QuadroEsp::Condicao(c, b, rb.valor),
        ).avaliar(c));
        lema_corre_soma(s0, h, k1 + 1 + k2 + 1, k3);
        k1 + 1 + k2 + 1 + k3
    } else {
        k1 + 1
    }
}

/// The machine follows the meaning of the tree. Where `x` has the outcome
/// `r` with the variables `ambiente` and the host `h`, the machine that
/// starts on `x` with these variables and takes its answers from `h` has,
/// after `k` steps, nothing left to do: it holds the value of `r`, the
/// variables of `r` and the printed values of `r`.
pub proof fn lema_maquina_segue_semantica(
    x: ExprEsp,
    ambiente: Map<Seq<char>, Valor>,
    h: spec_fn(AcaoEsp) -> Valor,
    n: nat,
) -> (k: nat)
    requires
        avalia(x, ambiente, Seq::empty(), h, n) is Some,
    ensures
        ({
            let r = avalia(x, ambiente, Seq::empty(), h, n)->0;
            let fim = corre(EstadoEsp::inicial(x, ambiente), h, k);
            &&& fim.concluido()
            &&& acao_esp(fim) == AcaoEsp::Concluido(r.valor)
            &&& fim.ambiente == r.ambiente
            &&& fim.saida == r.saida
        }),
{
    let e = EstadoEsp::inicial(x, ambiente);
    let k = lema_avalia(x, e, h, n);
    assert(e.avaliar(x) == e);
    k
}

/// A depth that is enough stays enough, however much is added.
pub proof fn lema_fundo(
    x: ExprEsp,
    ambiente: Map<Seq<char>, Valor>,
    saida: Seq<Valor>,
    h: spec_fn(AcaoEsp) -> Valor,
    n: nat,
    m: nat,
)
    requires
        avalia(x, ambiente, saida, h, n) is Some,
        n <= m,
    ensures
        avalia(x, ambiente, saida, h, m) == avalia(x, ambiente, saida, h, n),
    decreases m - n,
{
    if n < m {
        lema_mais_fundo(x, ambiente, saida, h, n);
        lema_fundo(x, ambiente, saida, h, n + 1, m);
    }
}

/// The same for a list.
pub proof fn lema_lista_funda(
    s: Seq<ExprEsp>,
    i: int,
    antes: Resultado,
    h: spec_fn(AcaoEsp) -> Valor,
    n: nat,
    m: nat,
)
    requires
        avalia_lista(s, i, antes, h, n) is Some,
        n <= m,
    ensures
        avalia_lista(s, i, antes, h, m) == avalia_lista(s, i, antes, h, n),
    decreases m - n,
{
    if n < m {
        lema_lista_mais_funda(s, i, antes, h, n);
        lema_lista_funda(s, i, antes, h, n + 1, m);
    }
}

/// The same for a loop.
pub proof fn lema_laco_fundo(
    c: ExprEsp,
    b: ExprEsp,
    antes: Resultado,
    h: spec_fn(AcaoEsp) -> Valor,
    n: nat,
    m: nat,
)
    requires
        avalia_laco(c, b, antes, h, n) is Some,
        n <= m,
    ensures
        avalia_laco(c, b, antes, h, m) == avalia_laco(c, b, antes, h, n),
    decreases m - n,
{
    if n < m {
        lema_laco_mais_fundo(c, b, antes, h, n);
        lema_laco_fundo(c, b, antes, h, n + 1, m);
    }
}

/// A machine with nothing left to do stays as it is.
pub proof fn lema_maquina_parada(m: EstadoEsp, h: spec_fn(AcaoEsp) -> Valor, n: nat)
    requires
        m.concluido(),
    ensures
        corre(m, h, n) == m,
    decreases n,
{
    if n > 0 {
        lema_maquina_parada(m, h, (n - 1) as nat);
    }
}

/// That the machine `s` is handing a value to the stack of `e`, or to what
/// lies below it.
pub open spec fn voltou(s: EstadoEsp, e: EstadoEsp) -> bool {
    s.modo is Retornar && s.pilha.len() <= e.pilha.len()
}

/// The greater of two numbers.
pub open spec fn maior(a: nat, b: nat) -> nat {
    if a >= b {
        a
    } else {
        b
    }
}

proof fn lema_seguinte(s0: EstadoEsp, h: spec_fn(AcaoEsp) -> Valor, j: nat, k: nat, e: EstadoEsp)
    requires
        j <= k,
        voltou(corre(s0, h, k), e),
        !voltou(corre(s0, h, j), e),
    ensures
        j + 1 <= k,
        corre(s0, h, j + 1) == um_passo(corre(s0, h, j), h),
        corre(s0, h, k) == corre(corre(s0, h, j + 1), h, (k - j - 1) as nat),
{
    lema_mais_um(s0, h, j);
    lema_corre_soma(s0, h, j + 1, (k - j - 1) as nat);
}

proof fn lema_volta_unaria(
    x: ExprEsp,
    q: QuadroEsp,
    y: ExprEsp,
    e: EstadoEsp,
    h: spec_fn(AcaoEsp) -> Valor,
    k: nat,
) -> (w: (nat, nat))
    requires
        match x {
            ExprEsp::Assign(nome, v) => q == QuadroEsp::Guardar(nome) && *v == y,
            ExprEsp::VarDef(nome, v) => q == QuadroEsp::Guardar(nome) && *v == y,
            ExprEsp::Unaria(op, v) => q == QuadroEsp::Unario(op) && *v == y,
            _ => false,
        },
        voltou(corre(e.avaliar(x), h, k), e),
    ensures
        w.0 <= k,
        avalia(x, e.ambiente, e.saida, h, w.1) is Some,
        corre(e.avaliar(x), h, w.0) == chegada(e, avalia(x, e.ambiente, e.saida, h, w.1)->0),
    decreases k, 0int,
{
    let s0 = e.avaliar(x);
    lema_seguinte(s0, h, 0, k, e);
    let e1 = e.empilhar(q);
    assert(um_passo(s0, h) == e1.avaliar(y));
    let (k1, n1) = lema_volta(y, e1, h, (k - 1) as nat);
    let r = avalia(y, e.ambiente, e.saida, h, n1)->0;
    lema_corre_soma(s0, h, 1, k1);
    lema_seguinte(s0, h, 1 + k1, k, e);
    lema_retomar(e, q, r, h);
    (1 + k1 + 1, n1 + 1)
}

proof fn lema_volta_se(
    x: ExprEsp,
    c: ExprEsp,
    t: ExprEsp,
    f: Option<Box<ExprEsp>>,
    e: EstadoEsp,
    h: spec_fn(AcaoEsp) -> Valor,
    k: nat,
) -> (w: (nat, nat))
    requires
        x == ExprEsp::If(Box::new(c), Box::new(t), f),
        voltou(corre(e.avaliar(x), h, k), e),
    ensures
        w.0 <= k,
        avalia(x, e.ambiente, e.saida, h, w.1) is Some,
        corre(e.avaliar(x), h, w.0) == chegada(e, avalia(x, e.ambiente, e.saida, h, w.1)->0),
    decreases k, 0int,
{
    let s0 = e.avaliar(x);
    lema_seguinte(s0, h, 0, k, e);
    let q = QuadroEsp::Escolher(t, f);
    let e1 = e.empilhar(q);
    assert(um_passo(s0, h) == e1.avaliar(c));
    let (k1, n1) = lema_volta(c, e1, h, (k - 1) as nat);
    let rc = avalia(c, e.ambiente, e.saida, h, n1)->0;
    lema_corre_soma(s0, h, 1, k1);
    lema_seguinte(s0, h, 1 + k1, k, e);
    lema_retomar(e, q, rc, h);
    let e2 = chegada(e, rc);
    let j = 1 + k1 + 1;
    if rc.valor.verdadeiro() {
        assert(corre(s0, h, j) == e2.avaliar(t));
        let (k2, n2) = lema_volta(t, e2, h, (k - j) as nat);
        lema_corre_soma(s0, h, j, k2);
        let n = maior(n1, n2);
        lema_fundo(c, e.ambiente, e.saida, h, n1, n);
        lema_fundo(t, rc.ambiente, rc.saida, h, n2, n);
        (j + k2, n + 1)
    } else {
        match f {
            Some(y) => {
                assert(corre(s0, h, j) == e2.avaliar(*y));
                let (k2, n2) = lema_volta(*y, e2, h, (k - j) as nat);
                lema_corre_soma(s0, h, j, k2);
                let n = maior(n1, n2);
                lema_fundo(c, e.ambiente, e.saida, h, n1, n);
                lema_fundo(*y, rc.ambiente, rc.saida, h, n2, n);
                (j + k2, n + 1)
            },
            None => (j, n1 + 1),
        }
    }
}

proof fn lema_volta_binaria(
    x: ExprEsp,
    op: OpBinario,
    a: ExprEsp,
    b: ExprEsp,
    e: EstadoEsp,
    h: spec_fn(AcaoEsp) -> Valor,
    k: nat,
) -> (w: (nat, nat))
    requires
        x == ExprEsp::Binaria(op, Box::new(a), Box::new(b)),
        voltou(corre(e.avaliar(x), h, k), e),
    ensures
        w.0 <= k,
        avalia(x, e.ambiente, e.saida, h, w.1) is Some,
        corre(e.avaliar(x), h, w.0) == chegada(e, avalia(x, e.ambiente, e.saida, h, w.1)->0),
    decreases k, 0int,
{
    let s0 = e.avaliar(x);
    lema_seguinte(s0, h, 0, k, e);
    let q = QuadroEsp::Direita(op, b);
    let e1 = e.empilhar(q);
    assert(um_passo(s0, h) == e1.avaliar(a));
    let (k1, n1) = lema_volta(a, e1, h, (k - 1) as nat);
    let ra = avalia(a, e.ambiente, e.saida, h, n1)->0;
    lema_corre_soma(s0, h, 1, k1);
    lema_seguinte(s0, h, 1 + k1, k, e);
    lema_retomar(e, q, ra, h);
    let e2 = chegada(e, ra);
    let j = 1 + k1 + 1;
    if op == OpBinario::And {
        if ra.valor.verdadeiro() {
            assert(corre(s0, h, j) == e2.avaliar(b));
            let (k2, n2) = lema_volta(b, e2, h, (k - j) as nat);
            lema_corre_soma(s0, h, j, k2);
            let n = maior(n1, n2);
            lema_fundo(a, e.ambiente, e.saida, h, n1, n);
            lema_fundo(b, ra.ambiente, ra.saida, h, n2, n);
            (j + k2, n + 1)
        } else {
            (j, n1 + 1)
        }
    } else if op == OpBinario::Or {
        if ra.valor.verdadeiro() {
            (j, n1 + 1)
        } else {
            let q2 = QuadroEsp::Normalizar;
            assert(corre(s0, h, j) == e2.empilhar(q2).avaliar(b));
            let (k2, n2) = lema_volta(b, e2.empilhar(q2), h, (k - j) as nat);
            let rb = avalia(b, ra.ambiente, ra.saida, h, n2)->0;
            lema_corre_soma(s0, h, j, k2);
            lema_seguinte(s0, h, j + k2, k, e);
            lema_retomar(e2, q2, rb, h);
            let n = maior(n1, n2);
            lema_fundo(a, e.ambiente, e.saida, h, n1, n);
            lema_fundo(b, ra.ambiente, ra.saida, h, n2, n);
            (j + k2 + 1, n + 1)
        }
    } else {
        let q2 = QuadroEsp::Operar(op, ra.valor);
        assert(corre(s0, h, j) == e2.empilhar(q2).avaliar(b));
        let (k2, n2) = lema_volta(b, e2.empilhar(q2), h, (k - j) as nat);
        let rb = avalia(b, ra.ambiente, ra.saida, h, n2)->0;
        lema_corre_soma(s0, h, j, k2);
        lema_seguinte(s0, h, j + k2, k, e);
        lema_retomar(e2, q2, rb, h);
        let n = maior(n1, n2);
        lema_fundo(a, e.ambiente, e.saida, h, n1, n);
        lema_fundo(b, ra.ambiente, ra.saida, h, n2, n);
        if aritmetico(op) {
            lema_seguinte(s0, h, j + k2 + 1, k, e);
            (j + k2 + 2, n + 1)
        } else {
            (j + k2 + 1, n + 1)
        }
    }
}

proof fn lema_volta_membros(
    x: ExprEsp,
    s: Seq<ExprEsp>,
    chamada: bool,
    e: EstadoEsp,
    h: spec_fn(AcaoEsp) -> Valor,
    k: nat,
) -> (w: (nat, nat))
    requires
        match x {
            ExprEsp::Block(m) => m == s && !chamada,
            ExprEsp::Call(_, m) => m == s && chamada,
            _ => false,
        },
        voltou(corre(e.avaliar(x), h, k), e),
    ensures
        w.0 <= k,
        avalia(x, e.ambiente, e.saida, h, w.1) is Some,
        corre(e.avaliar(x), h, w.0) == chegada(e, avalia(x, e.ambiente, e.saida, h, w.1)->0),
    decreases k, 0int,
{
    let s0 = e.avaliar(x);
    lema_seguinte(s0, h, 0, k, e);
    reveal_with_fuel(avalia, 2);
    if s.len() == 0 {
        (1, 2)
    } else {
        let q = quadro_da_lista(s, 1, chamada);
        let e1 = e.empilhar(q);
        assert(um_passo(s0, h) == e1.avaliar(s[0]));
        let (k1, n1) = lema_volta(s[0], e1, h, (k - 1) as nat);
        let r0 = avalia(s[0], e.ambiente, e.saida, h, n1)->0;
        lema_corre_soma(s0, h, 1, k1);
        lema_corre_soma(s0, h, 1 + k1, (k - 1 - k1) as nat);
        let (k2, n2) = lema_lista_volta(s, 1, chamada, r0, e, h, (k - 1 - k1) as nat);
        lema_corre_soma(s0, h, 1 + k1, k2);
        let n = maior(n1, n2);
        lema_fundo(s[0], e.ambiente, e.saida, h, n1, n);
        lema_lista_funda(s, 1, r0, h, n2, n);
        (1 + k1 + k2, n + 2)
    }
}

/// Where the machine, set on `x` above the stack of `e`, is found after `k`
/// steps handing a value to that stack or below, `x` has a meaning: some
/// depth is enough, and the machine came to hand the value of `x` to the
/// stack of `e` in no more than `k` steps. The lemma gives the number of
/// steps and the depth.
pub proof fn lema_volta(x: ExprEsp, e: EstadoEsp, h: spec_fn(AcaoEsp) -> Valor, k: nat) -> (w: (
    nat,
    nat,
))
    requires
        voltou(corre(e.avaliar(x), h, k), e),
    ensures
        w.0 <= k,
        avalia(x, e.ambiente, e.saida, h, w.1) is Some,
        corre(e.avaliar(x), h, w.0) == chegada(e, avalia(x, e.ambiente, e.saida, h, w.1)->0),
    decreases k, 1int,
{
    let s0 = e.avaliar(x);
    match x {
        ExprEsp::Numero(_) => {
            lema_seguinte(s0, h, 0, k, e);
            lema_seguinte(s0, h, 1, k, e);
            (2, 1)
        },
        ExprEsp::String(_) => {
            lema_seguinte(s0, h, 0, k, e);
            (1, 1)
        },
        ExprEsp::Identificador(_) => {
            lema_seguinte(s0, h, 0, k, e);
            (1, 1)
        },
        ExprEsp::GetAttr(_, _) => {
            lema_seguinte(s0, h, 0, k, e);
            (1, 1)
        },
        ExprEsp::Assign(nome, v) => lema_volta_unaria(x, QuadroEsp::Guardar(nome), *v, e, h, k),
        ExprEsp::VarDef(nome, v) => lema_volta_unaria(x, QuadroEsp::Guardar(nome), *v, e, h, k),
        ExprEsp::Unaria(op, y) => lema_volta_unaria(x, QuadroEsp::Unario(op), *y, e, h, k),
        ExprEsp::If(c, t, f) => lema_volta_se(x, *c, *t, f, e, h, k),
        ExprEsp::Binaria(op, a, b) => lema_volta_binaria(x, op, *a, *b, e, h, k),
        ExprEsp::Block(s) => lema_volta_membros(x, s, false, e, h, k),
        ExprEsp::Call(_, a) => lema_volta_membros(x, a, true, e, h, k),
        ExprEsp::While(c, b) => {
            lema_seguinte(s0, h, 0, k, e);
            let (k1, n1) = lema_laco_volta(*c, *b, situacao(e), e, h, (k - 1) as nat);
            lema_corre_soma(s0, h, 1, k1);
            (1 + k1, n1 + 1)
        },
    }
}

/// The same for a list, from the state in which the machine hands the value
/// of `antes` to the frame of the list at index `i`.
pub proof fn lema_lista_volta(
    s: Seq<ExprEsp>,
    i: int,
    chamada: bool,
    antes: Resultado,
    e: EstadoEsp,
    h: spec_fn(AcaoEsp) -> Valor,
    k: nat,
) -> (w: (nat, nat))
    requires
        0 <= i,
        voltou(corre(chegada(e.empilhar(quadro_da_lista(s, i, chamada)), antes), h, k), e),
    ensures
        w.0 <= k,
        avalia_lista(s, i, antes, h, w.1) is Some,
        ({
            let r = avalia_lista(s, i, antes, h, w.1)->0;
            corre(chegada(e.empilhar(quadro_da_lista(s, i, chamada)), antes), h, w.0) == chegada(
                e,
                if chamada {
                    r.com_valor(Valor::zero())
                } else {
                    r
                },
            )
        }),
    decreases k, 2int,
{
    let q = quadro_da_lista(s, i, chamada);
    let s0 = chegada(e.empilhar(q), antes);
    lema_seguinte(s0, h, 0, k, e);
    lema_retomar(e, q, antes, h);
    if i < s.len() {
        let q2 = quadro_da_lista(s, i + 1, chamada);
        let e1 = chegada(e, antes);
        let (k1, n1) = lema_volta(s[i], e1.empilhar(q2), h, (k - 1) as nat);
        let r = avalia(s[i], antes.ambiente, antes.saida, h, n1)->0;
        lema_corre_soma(s0, h, 1, k1);
        assert(chegada(e1.empilhar(q2), r) == chegada(e.empilhar(q2), r));
        lema_corre_soma(s0, h, 1 + k1, (k - 1 - k1) as nat);
        let (k2, n2) = lema_lista_volta(s, i + 1, chamada, r, e, h, (k - 1 - k1) as nat);
        lema_corre_soma(s0, h, 1 + k1, k2);
        let n = maior(n1, n2);
        lema_fundo(s[i], antes.ambiente, antes.saida, h, n1, n);
        lema_lista_funda(s, i + 1, r, h, n2, n);
        (1 + k1 + k2, n + 1)
    } else {
        (1, 1)
    }
}

/// The same for a loop, from the state in which the machine is set to
/// evaluate the condition.
pub proof fn lema_laco_volta(
    c: ExprEsp,
    b: ExprEsp,
    antes: Resultado,
    e: EstadoEsp,
    h: spec_fn(AcaoEsp) -> Valor,
    k: nat,
) -> (w: (nat, nat))
    requires
        antes.ambiente == e.ambiente,
        antes.saida == e.saida,
        voltou(corre(e.empilhar(QuadroEsp::Condicao(c, b, antes.valor)).avaliar(c), h, k), e),
    ensures
        w.0 <= k,
        avalia_laco(c, b, antes, h, w.1) is Some,
        corre(e.empilhar(QuadroEsp::Condicao(c, b, antes.valor)).avaliar(c), h, w.0) == chegada(
            e,
            avalia_laco(c, b, antes, h, w.1)->0,
        ),
    decreases k, 2int,
{
    let q = QuadroEsp::Condicao(c, b, antes.valor);
    let e1 = e.empilhar(q);
    let s0 = e1.avaliar(c);
    let (k1, n1) = lema_volta(c, e1, h, k);
    let rc = avalia(c, e.ambiente, e.saida, h, n1)->0;
    lema_seguinte(s0, h, k1, k, e);
    lema_retomar(e, q, rc, h);
    if rc.valor.verdadeiro() {
        let e2 = chegada(e, rc);
        let q2 = QuadroEsp::Corpo(c, b);
        let j = k1 + 1;
        let (k2, n2) = lema_volta(b, e2.empilhar(q2), h, (k - j) as nat);
        let rb = avalia(b, rc.ambiente, rc.saida, h, n2)->0;
        lema_corre_soma(s0, h, j, k2);
        lema_seguinte(s0, h, j + k2, k, e);
        lema_retomar(e2, q2, rb, h);
        let e3 = chegada(e, rb);
        let j3 = j + k2 + 1;
        assert(e3.empilhar(QuadroEsp::Condicao(c, b, rb.valor)).avaliar(c) == chegada(e2, rb).empilhar(
            QuadroEsp::Condicao(c, b, rb.valor),
        ).avaliar(c));
        let (k3, n3) = lema_laco_volta(c, b, rb, e3, h, (k - j3) as nat);
        lema_corre_soma(s0, h, j3, k3);
        let n = maior(maior(n1, n2), n3);
        lema_fundo(c, e.ambiente, e.saida, h, n1, n);
        lema_fundo(b, rc.ambiente, rc.saida, h, n2, n);
        lema_laco_fundo(c, b, rb, h, n3, n);
        (j3 + k3, n + 1)
    } else {
        (k1 + 1, n1 + 1)
    }
}

/// A machine that comes to an end has evaluated a tree that has a meaning,
/// and holds it. Where the machine that starts on `x` with the variables
/// `ambiente`, answered by `h`, has nothing left to do after `k` steps, `x`
/// has an outcome at the depth `n`, and the machine holds its value, its
/// variables and its printed values.
pub proof fn lema_conclusao_tem_significado(
    x: ExprEsp,
    ambiente: Map<Seq<char>, Valor>,
    h: spec_fn(AcaoEsp) -> Valor,
    k: nat,
) -> (n: nat)
    requires
        corre(EstadoEsp::inicial(x, ambiente), h, k).concluido(),
    ensures
        avalia(x, ambiente, Seq::empty(), h, n) is Some,
        ({
            let r = avalia(x, ambiente, Seq::empty(), h, n)->0;
            let fim = corre(EstadoEsp::inicial(x, ambiente), h, k);
            &&& acao_esp(fim) == AcaoEsp::Concluido(r.valor)
            &&& fim.ambiente == r.ambiente
            &&& fim.saida == r.saida
        }),
{
    let e = EstadoEsp::inicial(x, ambiente);
    assert(e.avaliar(x) == e);
    let (k1, n) = lema_volta(x, e, h, k);
    let r = avalia(x, ambiente, Seq::empty(), h, n)->0;
    lema_corre_soma(e, h, k1, (k - k1) as nat);
    lema_maquina_parada(chegada(e, r), h, (k - k1) as nat);
    n
}

} // verus!
