//! The printed form of a tree: one line for each node, children below their
//! parent and three spaces further in.
//!
//! `linhas` says what the lines are; `Expr::imprimir` is proved to build
//! them. Showing them is left to the caller.
use vstd::prelude::*;
use vstd::string::StringExecFns;
use crate::arvore_sintatica_abstrata::{
    lema_modelo_da_chamada, lema_modelo_do_bloco, modelos as arvores, Expr, ExprEsp, OpBinario,
    OpUnario,
};

verus! {

/// The level below `nivel`; the deepest level that can be counted is its own
/// child.
pub open spec fn abaixo(nivel: nat) -> nat {
    if nivel < usize::MAX {
        nivel + 1
    } else {
        nivel
    }
}

/// Three spaces for each level.
pub open spec fn recuo(nivel: nat) -> Seq<char>
    decreases nivel,
{
    if nivel == 0 {
        Seq::empty()
    } else {
        recuo((nivel - 1) as nat) + "   "@
    }
}

/// The character of the digit `d`, for `d` below ten.
pub open spec fn algarismo(d: nat) -> char {
    if d == 0 {
        '0'
    } else if d == 1 {
        '1'
    } else if d == 2 {
        '2'
    } else if d == 3 {
        '3'
    } else if d == 4 {
        '4'
    } else if d == 5 {
        '5'
    } else if d == 6 {
        '6'
    } else if d == 7 {
        '7'
    } else if d == 8 {
        '8'
    } else {
        '9'
    }
}

/// The number `n` in decimal digits, without leading zeros.
pub open spec fn decimal(n: nat) -> Seq<char>
    decreases n,
{
    if n < 10 {
        seq![algarismo(n)]
    } else {
        decimal(n / 10).push(algarismo(n % 10))
    }
}

/// The heading of a node with one operand.
pub open spec fn rotulo_unario(op: OpUnario) -> Seq<char> {
    match op {
        OpUnario::Negacao => "Negação (!):"@,
        OpUnario::NegacaoAritmetica => "Negação Aritmética (-):"@,
        OpUnario::Print => "Print:"@,
    }
}

/// The heading of a node with two operands.
pub open spec fn rotulo_binario(op: OpBinario) -> Seq<char> {
    match op {
        OpBinario::And => "And:"@,
        OpBinario::Or => "Or:"@,
        OpBinario::Soma => "Soma:"@,
        OpBinario::Subtracao => "Subtração:"@,
        OpBinario::Multiplicacao => "Multiplicação:"@,
        OpBinario::Divisao => "Divisão:"@,
        OpBinario::Modulo => "Modulo:"@,
        OpBinario::Maior => "Maior (>):"@,
        OpBinario::Menor => "Menor (<):"@,
        OpBinario::MaiorIgual => "Maior Igual (>=):"@,
        OpBinario::MenorIgual => "Menor Igual (<=):"@,
        OpBinario::IgualIgual => "Igual (==):"@,
        OpBinario::Diferente => "Diferente (!=):"@,
    }
}

/// The lines of the tree `e` at level `nivel`.
pub open spec fn linhas(e: ExprEsp, nivel: nat) -> Seq<Seq<char>>
    decreases e, 0int,
{
    let r = recuo(nivel);
    let n = abaixo(nivel);
    match e {
        ExprEsp::Numero(t) => seq![r + "Número: "@ + t],
        ExprEsp::String(t) => seq![r + "String: \""@ + t + "\""@],
        ExprEsp::Identificador(t) => seq![r + "Identificador: "@ + t],
        ExprEsp::Assign(nome, v) => seq![r + "Assign: "@ + nome + " ="@] + linhas(*v, n),
        ExprEsp::VarDef(nome, v) => seq![r + "VarDef: var "@ + nome + " ="@] + linhas(*v, n),
        ExprEsp::Block(s) => seq![r + "Block:"@] + linhas_da_lista(s, 0, n),
        ExprEsp::If(c, t, f) => seq![r + "If:"@] + linhas(*c, n) + seq![r + "Then:"@] + linhas(
            *t,
            n,
        ) + match f {
            Some(x) => seq![r + "Else:"@] + linhas(*x, n),
            None => Seq::empty(),
        },
        ExprEsp::While(c, b) => seq![r + "While:"@] + linhas(*c, n) + seq![r + "Corpo:"@] + linhas(
            *b,
            n,
        ),
        ExprEsp::GetAttr(o, nome) => seq![r + "GetAttr: "@ + nome] + linhas(*o, n),
        ExprEsp::Call(f, a) => seq![r + "Call:"@] + linhas(*f, n) + linhas_dos_argumentos(
            a,
            0,
            nivel,
        ),
        ExprEsp::Unaria(op, x) => seq![r + rotulo_unario(op)] + linhas(*x, n),
        ExprEsp::Binaria(op, a, b) => seq![r + rotulo_binario(op)] + linhas(*a, n) + linhas(*b, n),
    }
}

/// The lines of the members of `s` from index `i` on, each at level `nivel`.
pub open spec fn linhas_da_lista(s: Seq<ExprEsp>, i: int, nivel: nat) -> Seq<Seq<char>>
    decreases s, s.len() - i,
{
    if 0 <= i < s.len() {
        linhas(s[i], nivel) + linhas_da_lista(s, i + 1, nivel)
    } else {
        Seq::empty()
    }
}

/// The lines of the arguments of a call at level `nivel`, from index `i` on:
/// for each a heading with its index, and the argument one level below.
pub open spec fn linhas_dos_argumentos(s: Seq<ExprEsp>, i: int, nivel: nat) -> Seq<Seq<char>>
    decreases s, s.len() - i,
{
    if 0 <= i < s.len() {
        seq![recuo(nivel) + "Argumento "@ + decimal(i as nat) + ":"@] + linhas(
            s[i],
            abaixo(nivel),
        ) + linhas_dos_argumentos(s, i + 1, nivel)
    } else {
        Seq::empty()
    }
}

/// The views of a sequence of strings, one for one.
pub open spec fn textos(v: Seq<String>) -> Seq<Seq<char>> {
    Seq::new(v.len(), |i: int| v[i]@)
}

fn nivel_abaixo(nivel: usize) -> (n: usize)
    ensures
        n == abaixo(nivel as nat),
{
    if nivel < usize::MAX {
        nivel + 1
    } else {
        nivel
    }
}

fn novo_recuo(nivel: usize) -> (s: String)
    ensures
        s@ == recuo(nivel as nat),
{
    let mut s = String::new();
    let mut i: usize = 0;
    while i < nivel
        invariant
            i <= nivel,
            s@ == recuo(i as nat),
        decreases nivel - i,
    {
        s.append("   ");
        i = i + 1;
    }
    s
}

fn escrever_decimal(s: &mut String, n: usize)
    ensures
        final(s)@ == old(s)@ + decimal(n as nat),
    decreases n,
{
    if n >= 10 {
        escrever_decimal(s, n / 10);
    }
    let d: usize = n % 10;
    let c = if d == 0 {
        '0'
    } else if d == 1 {
        '1'
    } else if d == 2 {
        '2'
    } else if d == 3 {
        '3'
    } else if d == 4 {
        '4'
    } else if d == 5 {
        '5'
    } else if d == 6 {
        '6'
    } else if d == 7 {
        '7'
    } else if d == 8 {
        '8'
    } else {
        '9'
    };
    let ghost antes = s@;
    s.push(c);
    proof {
        if n >= 10 {
            assert(s@ =~= old(s)@ + decimal((n / 10) as nat).push(algarismo((n % 10) as nat)));
        } else {
            assert(s@ =~= old(s)@ + seq![algarismo(n as nat)]);
        }
    }
}

fn nome_unario(op: OpUnario) -> (r: &'static str)
    ensures
        r@ == rotulo_unario(op),
{
    match op {
        OpUnario::Negacao => "Negação (!):",
        OpUnario::NegacaoAritmetica => "Negação Aritmética (-):",
        OpUnario::Print => "Print:",
    }
}

fn nome_binario(op: OpBinario) -> (r: &'static str)
    ensures
        r@ == rotulo_binario(op),
{
    match op {
        OpBinario::And => "And:",
        OpBinario::Or => "Or:",
        OpBinario::Soma => "Soma:",
        OpBinario::Subtracao => "Subtração:",
        OpBinario::Multiplicacao => "Multiplicação:",
        OpBinario::Divisao => "Divisão:",
        OpBinario::Modulo => "Modulo:",
        OpBinario::Maior => "Maior (>):",
        OpBinario::Menor => "Menor (<):",
        OpBinario::MaiorIgual => "Maior Igual (>=):",
        OpBinario::MenorIgual => "Menor Igual (<=):",
        OpBinario::IgualIgual => "Igual (==):",
        OpBinario::Diferente => "Diferente (!=):",
    }
}

/// Adds to `saida` the line made of the indentation of `nivel`, then `a`,
/// `b` and `c`.
fn escrever_linha(saida: &mut Vec<String>, nivel: usize, a: &str, b: &str, c: &str)
    ensures
        textos(final(saida)@) == textos(old(saida)@).push(recuo(nivel as nat) + a@ + b@ + c@),
{
    let mut l = novo_recuo(nivel);
    l.append(a);
    l.append(b);
    l.append(c);
    saida.push(l);
    assert(textos(saida@) =~= textos(old(saida)@).push(recuo(nivel as nat) + a@ + b@ + c@));
}

impl Expr {
    fn imprimir_unaria(&self, op: OpUnario, x: &Expr, nivel: usize, saida: &mut Vec<String>)
        requires
            self@ == ExprEsp::unaria(op, x@),
            decreases_to!(self => x),
        ensures
            textos(final(saida)@) == textos(old(saida)@) + linhas(self@, nivel as nat),
        decreases self, 0int,
    {
        escrever_linha(saida, nivel, nome_unario(op), "", "");
        let ghost cabeca = recuo(nivel as nat) + rotulo_unario(op);
        proof {
            assert(""@ =~= Seq::<char>::empty()) by {
                reveal_strlit("");
            }
            assert(recuo(nivel as nat) + rotulo_unario(op) + ""@ + ""@ =~= cabeca);
        }
        x.imprimir_em(nivel_abaixo(nivel), saida);
        assert(textos(saida@) =~= textos(old(saida)@) + (seq![cabeca] + linhas(
            x@,
            abaixo(nivel as nat),
        )));
    }

    fn imprimir_binaria(
        &self,
        op: OpBinario,
        a: &Expr,
        b: &Expr,
        nivel: usize,
        saida: &mut Vec<String>,
    )
        requires
            self@ == ExprEsp::binaria(op, a@, b@),
            decreases_to!(self => a),
            decreases_to!(self => b),
        ensures
            textos(final(saida)@) == textos(old(saida)@) + linhas(self@, nivel as nat),
        decreases self, 0int,
    {
        escrever_linha(saida, nivel, nome_binario(op), "", "");
        let ghost cabeca = recuo(nivel as nat) + rotulo_binario(op);
        proof {
            assert(""@ =~= Seq::<char>::empty()) by {
                reveal_strlit("");
            }
            assert(recuo(nivel as nat) + rotulo_binario(op) + ""@ + ""@ =~= cabeca);
        }
        a.imprimir_em(nivel_abaixo(nivel), saida);
        b.imprimir_em(nivel_abaixo(nivel), saida);
        assert(textos(saida@) =~= textos(old(saida)@) + (seq![cabeca] + linhas(
            a@,
            abaixo(nivel as nat),
        ) + linhas(b@, abaixo(nivel as nat))));
    }

    fn imprimir_em(&self, nivel: usize, saida: &mut Vec<String>)
        ensures
            textos(final(saida)@) == textos(old(saida)@) + linhas(self@, nivel as nat),
        decreases self, 1int,
    {
        let ghost antes = textos(saida@);
        let ghost r = recuo(nivel as nat);
        let ghost n = abaixo(nivel as nat);
        let filho = nivel_abaixo(nivel);
        proof {
            reveal_strlit("");
            assert(""@ =~= Seq::<char>::empty());
        }
        match self {
            Expr::Numero(t) => {
                escrever_linha(saida, nivel, "Número: ", t.as_str(), "");
                assert(textos(saida@) =~= antes + seq![r + "Número: "@ + t@]) by {
                    assert(r + "Número: "@ + t@ + ""@ =~= r + "Número: "@ + t@);
                }
            },
            Expr::String(t) => {
                escrever_linha(saida, nivel, "String: \"", t.as_str(), "\"");
                assert(textos(saida@) =~= antes + seq![r + "String: \""@ + t@ + "\""@]);
            },
            Expr::Identificador(t) => {
                escrever_linha(saida, nivel, "Identificador: ", t.as_str(), "");
                assert(textos(saida@) =~= antes + seq![r + "Identificador: "@ + t@]) by {
                    assert(r + "Identificador: "@ + t@ + ""@ =~= r + "Identificador: "@ + t@);
                }
            },
            Expr::Assign(nome, v) => {
                escrever_linha(saida, nivel, "Assign: ", nome.as_str(), " =");
                v.imprimir_em(filho, saida);
                assert(textos(saida@) =~= antes + (seq![r + "Assign: "@ + nome@ + " ="@] + linhas(
                    v@,
                    n,
                )));
            },
            Expr::VarDef(nome, v) => {
                escrever_linha(saida, nivel, "VarDef: var ", nome.as_str(), " =");
                v.imprimir_em(filho, saida);
                assert(textos(saida@) =~= antes + (seq![r + "VarDef: var "@ + nome@ + " ="@]
                    + linhas(v@, n)));
            },
            Expr::Block(s) => {
                escrever_linha(saida, nivel, "Block:", "", "");
                let ghost cabeca = r + "Block:"@;
                assert(r + "Block:"@ + ""@ + ""@ =~= cabeca);
                proof {
                    lema_modelo_do_bloco(*s);
                }
                let ghost m = arvores(s@);
                let mut i: usize = 0;
                assert(antes.push(cabeca) + linhas_da_lista(m, 0, n) =~= antes + (seq![cabeca]
                    + linhas_da_lista(m, 0, n)));
                while i < s.len()
                    invariant
                        i <= s@.len(),
                        m == arvores(s@),
                        decreases_to!(self => s),
                        n == filho as nat,
                        textos(saida@) + linhas_da_lista(m, i as int, n) == antes + (seq![cabeca]
                            + linhas_da_lista(m, 0, n)),
                    decreases s@.len() - i,
                {
                    let ghost feito = textos(saida@);
                    s[i].imprimir_em(filho, saida);
                    assert(feito + (linhas(m[i as int], n) + linhas_da_lista(m, i + 1, n)) =~= (
                    feito + linhas(m[i as int], n)) + linhas_da_lista(m, i + 1, n));
                    i = i + 1;
                }
                assert(textos(saida@) + Seq::<Seq<char>>::empty() =~= textos(saida@));
            },
            Expr::If(c, t, f) => {
                escrever_linha(saida, nivel, "If:", "", "");
                assert(r + "If:"@ + ""@ + ""@ =~= r + "If:"@);
                c.imprimir_em(filho, saida);
                escrever_linha(saida, nivel, "Then:", "", "");
                assert(r + "Then:"@ + ""@ + ""@ =~= r + "Then:"@);
                t.imprimir_em(filho, saida);
                let ghost meio = textos(saida@);
                assert(meio =~= antes + (seq![r + "If:"@] + linhas(c@, n) + seq![r + "Then:"@]
                    + linhas(t@, n)));
                match f {
                    Some(x) => {
                        escrever_linha(saida, nivel, "Else:", "", "");
                        assert(r + "Else:"@ + ""@ + ""@ =~= r + "Else:"@);
                        x.imprimir_em(filho, saida);
                        assert(textos(saida@) =~= antes + (seq![r + "If:"@] + linhas(c@, n)
                            + seq![r + "Then:"@] + linhas(t@, n) + (seq![r + "Else:"@] + linhas(
                            x@,
                            n,
                        ))));
                    },
                    None => {
                        assert(textos(saida@) =~= antes + (seq![r + "If:"@] + linhas(c@, n)
                            + seq![r + "Then:"@] + linhas(t@, n) + Seq::<Seq<char>>::empty()));
                    },
                }
            },
            Expr::While(c, b) => {
                escrever_linha(saida, nivel, "While:", "", "");
                assert(r + "While:"@ + ""@ + ""@ =~= r + "While:"@);
                c.imprimir_em(filho, saida);
                escrever_linha(saida, nivel, "Corpo:", "", "");
                assert(r + "Corpo:"@ + ""@ + ""@ =~= r + "Corpo:"@);
                b.imprimir_em(filho, saida);
                assert(textos(saida@) =~= antes + (seq![r + "While:"@] + linhas(c@, n)
                    + seq![r + "Corpo:"@] + linhas(b@, n)));
            },
            Expr::GetAttr(o, nome) => {
                escrever_linha(saida, nivel, "GetAttr: ", nome.as_str(), "");
                assert(r + "GetAttr: "@ + nome@ + ""@ =~= r + "GetAttr: "@ + nome@);
                o.imprimir_em(filho, saida);
                assert(textos(saida@) =~= antes + (seq![r + "GetAttr: "@ + nome@] + linhas(o@, n)));
            },
            Expr::Call(f, a) => {
                escrever_linha(saida, nivel, "Call:", "", "");
                let ghost cabeca = r + "Call:"@;
                assert(r + "Call:"@ + ""@ + ""@ =~= cabeca);
                f.imprimir_em(filho, saida);
                proof {
                    lema_modelo_da_chamada(**f, *a);
                }
                let ghost m = arvores(a@);
                let ghost alvo = antes + (seq![cabeca] + linhas(f@, n) + linhas_dos_argumentos(
                    m,
                    0,
                    nivel as nat,
                ));
                let mut i: usize = 0;
                assert(textos(saida@) + linhas_dos_argumentos(m, 0, nivel as nat) =~= alvo);
                while i < a.len()
                    invariant
                        i <= a@.len(),
                        m == arvores(a@),
                        decreases_to!(self => a),
                        n == filho as nat,
                        n == abaixo(nivel as nat),
                        textos(saida@) + linhas_dos_argumentos(m, i as int, nivel as nat) == alvo,
                    decreases a@.len() - i,
                {
                    let ghost feito = textos(saida@);
                    let mut numero = String::new();
                    escrever_decimal(&mut numero, i);
                    assert(numero@ =~= decimal(i as nat));
                    escrever_linha(saida, nivel, "Argumento ", numero.as_str(), ":");
                    let ghost titulo = recuo(nivel as nat) + "Argumento "@ + decimal(i as nat)
                        + ":"@;
                    a[i].imprimir_em(filho, saida);
                    assert(feito + (seq![titulo] + linhas(m[i as int], n) + linhas_dos_argumentos(
                        m,
                        i + 1,
                        nivel as nat,
                    )) =~= (feito.push(titulo) + linhas(m[i as int], n)) + linhas_dos_argumentos(
                        m,
                        i + 1,
                        nivel as nat,
                    ));
                    i = i + 1;
                }
                assert(textos(saida@) + Seq::<Seq<char>>::empty() =~= textos(saida@));
            },
            Expr::Negacao(e) => self.imprimir_unaria(OpUnario::Negacao, e, nivel, saida),
            Expr::NegacaoAritmetica(e) => self.imprimir_unaria(
                OpUnario::NegacaoAritmetica,
                e,
                nivel,
                saida,
            ),
            Expr::Print(e) => self.imprimir_unaria(OpUnario::Print, e, nivel, saida),
            Expr::And(a, b) => self.imprimir_binaria(OpBinario::And, a, b, nivel, saida),
            Expr::Or(a, b) => self.imprimir_binaria(OpBinario::Or, a, b, nivel, saida),
            Expr::Soma(a, b) => self.imprimir_binaria(OpBinario::Soma, a, b, nivel, saida),
            Expr::Subtracao(a, b) => self.imprimir_binaria(OpBinario::Subtracao, a, b, nivel, saida),
            Expr::Multiplicacao(a, b) => self.imprimir_binaria(
                OpBinario::Multiplicacao,
                a,
                b,
                nivel,
                saida,
            ),
            Expr::Divisao(a, b) => self.imprimir_binaria(OpBinario::Divisao, a, b, nivel, saida),
            Expr::Modulo(a, b) => self.imprimir_binaria(OpBinario::Modulo, a, b, nivel, saida),
            Expr::Maior(a, b) => self.imprimir_binaria(OpBinario::Maior, a, b, nivel, saida),
            Expr::Menor(a, b) => self.imprimir_binaria(OpBinario::Menor, a, b, nivel, saida),
            Expr::MaiorIgual(a, b) => self.imprimir_binaria(
                OpBinario::MaiorIgual,
                a,
                b,
                nivel,
                saida,
            ),
            Expr::MenorIgual(a, b) => self.imprimir_binaria(
                OpBinario::MenorIgual,
                a,
                b,
                nivel,
                saida,
            ),
            Expr::IgualIgual(a, b) => self.imprimir_binaria(
                OpBinario::IgualIgual,
                a,
                b,
                nivel,
                saida,
            ),
            Expr::Diferente(a, b) => self.imprimir_binaria(OpBinario::Diferente, a, b, nivel, saida),
        }
    }

    /// The lines that show this tree at level `nivel`, the first one first:
    /// one line for each node, with three spaces of indentation for each
    /// level, and the children of a node one level below it.
    pub fn imprimir(&self, nivel: usize) -> (r: Vec<String>)
        ensures
            textos(r@) == linhas(self@, nivel as nat),
    {
        let mut saida: Vec<String> = Vec::new();
        self.imprimir_em(nivel, &mut saida);
        assert(textos(Seq::<String>::empty()) + linhas(self@, nivel as nat) =~= linhas(
            self@,
            nivel as nat,
        ));
        saida
    }
}

} // verus!
