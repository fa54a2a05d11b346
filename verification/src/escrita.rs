//! From symbols back to text, and the proof that the lexer reads that text
//! as the same symbols.
use vstd::prelude::*;
use vstd::string::StringExecFns;
use crate::analisador_lexico::{
    continua_identificador, corpo_texto, eh_digito, eh_espaco, fim_identificador, fim_numero,
    inicia_identificador, lema_fim_identificador, lema_fim_numero, lema_ler_avanca, ler, lexico,
    lexico_de, modelos, palavra, ErroLexico, Simbolo, SimboloEsp,
};
use crate::texto::caracteres;

verus! {

/// The contents `c` of a string literal as they are written between the
/// quotes: a backslash before each quote and each backslash.
pub open spec fn escapado(c: Seq<char>) -> Seq<char>
    decreases c.len(),
{
    if c.len() == 0 {
        Seq::empty()
    } else if c[0] == '"' || c[0] == '\\' {
        seq!['\\', c[0]] + escapado(c.drop_first())
    } else {
        seq![c[0]] + escapado(c.drop_first())
    }
}

/// The text of one symbol. The end of the input has none.
pub open spec fn escrito(t: SimboloEsp) -> Seq<char> {
    match t {
        SimboloEsp::Numero(n) => n,
        SimboloEsp::String(c) => seq!['"'] + escapado(c) + seq!['"'],
        SimboloEsp::Identificador(n) => n,
        SimboloEsp::Ponto => seq!['.'],
        SimboloEsp::AbreParenteses => seq!['('],
        SimboloEsp::FechaParenteses => seq![')'],
        SimboloEsp::AbreChaves => seq!['{'],
        SimboloEsp::FechaChaves => seq!['}'],
        SimboloEsp::Virgula => seq![','],
        SimboloEsp::PontoVirgula => seq![';'],
        SimboloEsp::Negacao => seq!['!'],
        SimboloEsp::Soma => seq!['+'],
        SimboloEsp::Subtracao => seq!['-'],
        SimboloEsp::Multiplicacao => seq!['*'],
        SimboloEsp::Divisao => seq!['/'],
        SimboloEsp::Modulo => seq!['%'],
        SimboloEsp::And => seq!['a', 'n', 'd'],
        SimboloEsp::Or => seq!['o', 'r'],
        SimboloEsp::Igual => seq!['='],
        SimboloEsp::Maior => seq!['>'],
        SimboloEsp::Menor => seq!['<'],
        SimboloEsp::MaiorIgual => seq!['>', '='],
        SimboloEsp::MenorIgual => seq!['<', '='],
        SimboloEsp::IgualIgual => seq!['=', '='],
        SimboloEsp::Diferente => seq!['!', '='],
        SimboloEsp::Var => seq!['v', 'a', 'r'],
        SimboloEsp::If => seq!['i', 'f'],
        SimboloEsp::Else => seq!['e', 'l', 's', 'e'],
        SimboloEsp::While => seq!['w', 'h', 'i', 'l', 'e'],
        SimboloEsp::Print => seq!['p', 'r', 'i', 'n', 't'],
        SimboloEsp::Fim => Seq::empty(),
    }
}

/// The text of a sequence of symbols: the text of each, followed by one
/// space.
pub open spec fn texto_de(s: Seq<SimboloEsp>) -> Seq<char>
    decreases s.len(),
{
    if s.len() == 0 {
        Seq::empty()
    } else {
        escrito(s[0]) + seq![' '] + texto_de(s.drop_first())
    }
}

/// The text of a numeric literal as the lexer reads one: it starts with a
/// digit and holds digits and at most one point.
pub open spec fn literal_numerico(n: Seq<char>) -> bool {
    &&& n.len() > 0
    &&& eh_digito(n[0])
    &&& forall|k: int| 0 <= k < n.len() ==> eh_digito(#[trigger] n[k]) || n[k] == '.'
    &&& forall|j: int, k: int| 0 <= j < k < n.len() ==> !(#[trigger] n[j] == '.' && #[trigger] n[k] == '.')
}

/// A name as the lexer reads one: it starts with a letter or an underscore,
/// goes on with letters, digits and underscores, and is no keyword.
pub open spec fn nome_valido(n: Seq<char>) -> bool {
    &&& n.len() > 0
    &&& inicia_identificador(n[0])
    &&& forall|k: int| 0 <= k < n.len() ==> continua_identificador(#[trigger] n[k])
    &&& palavra(n) == SimboloEsp::Identificador(n)
}

/// Whether the lexer can give the symbol `t`.
pub open spec fn valido(t: SimboloEsp) -> bool {
    match t {
        SimboloEsp::Numero(n) => literal_numerico(n),
        SimboloEsp::Identificador(n) => nome_valido(n),
        _ => true,
    }
}

/// Whether the lexer can give the sequence `s`: symbols that it can give,
/// closed by the one end of the input.
pub open spec fn bem_formados(s: Seq<SimboloEsp>) -> bool {
    &&& s.len() > 0
    &&& s.last() is Fim
    &&& forall|k: int| 0 <= k < s.len() - 1 ==> (#[trigger] s[k]) !is Fim && valido(s[k])
}

proof fn lema_identificador_inteiro(t: Seq<char>, i: int)
    requires
        0 <= i <= t.len(),
    ensures
        i <= fim_identificador(t, i) <= t.len(),
        forall|k: int| i <= k < fim_identificador(t, i) ==> continua_identificador(#[trigger] t[k]),
    decreases t.len() - i,
{
    if i < t.len() && continua_identificador(t[i]) {
        lema_identificador_inteiro(t, i + 1);
    }
}

proof fn lema_numero_inteiro(t: Seq<char>, i: int, ponto: bool)
    requires
        0 <= i <= t.len(),
    ensures
        i <= fim_numero(t, i, ponto) <= t.len(),
        forall|k: int|
            i <= k < fim_numero(t, i, ponto) ==> eh_digito(#[trigger] t[k]) || t[k] == '.',
        forall|j: int, k: int|
            i <= j < k < fim_numero(t, i, ponto) ==> !(#[trigger] t[j] == '.' && #[trigger] t[k]
                == '.'),
        ponto ==> forall|k: int| i <= k < fim_numero(t, i, ponto) ==> #[trigger] t[k] != '.',
    decreases t.len() - i,
{
    if i < t.len() && (eh_digito(t[i]) || (t[i] == '.' && !ponto)) {
        lema_numero_inteiro(t, i + 1, ponto || t[i] == '.');
    }
}

/// What the lexer reads at an index is a symbol that it can give, and not
/// the end of the input.
pub proof fn lema_ler_valido(t: Seq<char>, i: int)
    requires
        0 <= i < t.len(),
    ensures
        ler(t, i) matches Some((s, _)) ==> valido(s) && s !is Fim,
{
    let c = t[i];
    if c == '"' {
    } else if inicia_identificador(c) {
        let j = fim_identificador(t, i);
        lema_identificador_inteiro(t, i);
        lema_fim_identificador(t, i);
        let n = t.subrange(i, j);
        assert(j > i);
        assert(n[0] == t[i]);
        assert forall|k: int| 0 <= k < n.len() implies continua_identificador(#[trigger] n[k]) by {
            assert(n[k] == t[i + k]);
        }
    } else if eh_digito(c) {
        let j = fim_numero(t, i, false);
        lema_numero_inteiro(t, i, false);
        lema_fim_numero(t, i, false);
        let n = t.subrange(i, j);
        assert(j > i);
        assert(n[0] == t[i]);
        assert forall|k: int| 0 <= k < n.len() implies eh_digito(#[trigger] n[k]) || n[k]
            == '.' by {
            assert(n[k] == t[i + k]);
        }
        assert forall|a: int, b: int| 0 <= a < b < n.len() implies !(#[trigger] n[a] == '.'
            && #[trigger] n[b] == '.') by {
            assert(n[a] == t[i + a]);
            assert(n[b] == t[i + b]);
        }
    } else {
    }
}

/// The lexer gives only sequences that are well formed.
pub proof fn lema_lexico_bem_formado(t: Seq<char>, i: int)
    requires
        0 <= i,
    ensures
        lexico_de(t, i) matches Ok(s) ==> bem_formados(s),
    decreases t.len() - i,
{
    if i >= t.len() {
    } else if eh_espaco(t[i]) {
        lema_lexico_bem_formado(t, i + 1);
    } else {
        match ler(t, i) {
            Some((s, j)) => {
                lema_ler_avanca(t, i);
                lema_ler_valido(t, i);
                lema_lexico_bem_formado(t, j);
                match lexico_de(t, j) {
                    Ok(resto) => {
                        let juntos = seq![s] + resto;
                        assert(juntos.last() == resto.last());
                        assert forall|k: int| 0 <= k < juntos.len() - 1 implies (#[trigger] juntos[k])
                            !is Fim && valido(juntos[k]) by {
                            if k > 0 {
                                assert(juntos[k] == resto[k - 1]);
                            }
                        }
                    },
                    Err(_) => {},
                }
            },
            None => {},
        }
    }
}

proof fn lema_fim_identificador_ate(t: Seq<char>, i: int, j: int)
    requires
        0 <= i <= j < t.len(),
        forall|k: int| i <= k < j ==> continua_identificador(#[trigger] t[k]),
        !continua_identificador(t[j]),
    ensures
        fim_identificador(t, i) == j,
    decreases j - i,
{
    if i < j {
        lema_fim_identificador_ate(t, i + 1, j);
    }
}

proof fn lema_fim_numero_ate(t: Seq<char>, i: int, j: int, ponto: bool)
    requires
        0 <= i <= j < t.len(),
        forall|k: int| i <= k < j ==> eh_digito(#[trigger] t[k]) || t[k] == '.',
        forall|a: int, b: int| i <= a < b < j ==> !(#[trigger] t[a] == '.' && #[trigger] t[b] == '.'),
        ponto ==> forall|k: int| i <= k < j ==> #[trigger] t[k] != '.',
        !eh_digito(t[j]),
        t[j] != '.',
    ensures
        fim_numero(t, i, ponto) == j,
    decreases j - i,
{
    if i < j {
        if t[i] == '.' {
            assert forall|k: int| i + 1 <= k < j implies #[trigger] t[k] != '.' by {
                assert(!(t[i] == '.' && t[k] == '.'));
            }
        }
        lema_fim_numero_ate(t, i + 1, j, ponto || t[i] == '.');
    }
}

proof fn lema_corpo_escapado(t: Seq<char>, i: int, c: Seq<char>)
    requires
        0 <= i,
        i + escapado(c).len() < t.len(),
        t.subrange(i, i + escapado(c).len()) == escapado(c),
        t[i + escapado(c).len()] == '"',
    ensures
        corpo_texto(t, i) == (c, i + escapado(c).len() + 1),
    decreases c.len(),
{
    let e = escapado(c);
    if c.len() == 0 {
    } else {
        let resto = c.drop_first();
        let er = escapado(resto);
        assert(t[i] == e[0]) by {
            assert(t.subrange(i, i + e.len())[0] == t[i]);
        }
        if c[0] == '"' || c[0] == '\\' {
            assert(e =~= seq!['\\', c[0]] + er);
            assert(t[i + 1] == e[1]) by {
                assert(t.subrange(i, i + e.len())[1] == t[i + 1]);
            }
            assert(t.subrange(i + 2, i + 2 + er.len()) =~= er) by {
                assert forall|k: int| 0 <= k < er.len() implies t.subrange(
                    i + 2,
                    i + 2 + er.len(),
                )[k] == er[k] by {
                    assert(t.subrange(i, i + e.len())[k + 2] == t[i + 2 + k]);
                    assert(e[k + 2] == er[k]);
                }
            }
            lema_corpo_escapado(t, i + 2, resto);
            assert(seq![c[0]] + resto =~= c);
        } else {
            assert(e =~= seq![c[0]] + er);
            assert(t.subrange(i + 1, i + 1 + er.len()) =~= er) by {
                assert forall|k: int| 0 <= k < er.len() implies t.subrange(
                    i + 1,
                    i + 1 + er.len(),
                )[k] == er[k] by {
                    assert(t.subrange(i, i + e.len())[k + 1] == t[i + 1 + k]);
                    assert(e[k + 1] == er[k]);
                }
            }
            lema_corpo_escapado(t, i + 1, resto);
            assert(seq![c[0]] + resto =~= c);
        }
    }
}

/// Where the text of a symbol that the lexer can give stands in `t` at index
/// `i`, with a space after it, the lexer reads that symbol there, up to the
/// space.
pub proof fn lema_ler_escrito(t: Seq<char>, i: int, s: SimboloEsp)
    requires
        0 <= i,
        i + escrito(s).len() < t.len(),
        t.subrange(i, i + escrito(s).len()) == escrito(s),
        t[i + escrito(s).len()] == ' ',
        valido(s),
        s !is Fim,
    ensures
        !eh_espaco(t[i]),
        ler(t, i) == Some((s, i + escrito(s).len())),
{
    let e = escrito(s);
    let n = e.len() as int;
    let parte = t.subrange(i, i + n);
    assert forall|k: int| 0 <= k < n implies t[i + k] == #[trigger] e[k] by {
        assert(parte[k] == t[i + k]);
    }
    match s {
        SimboloEsp::Numero(x) => {
            assert(t[i] == e[0]);
            assert forall|k: int| i <= k < i + n implies eh_digito(#[trigger] t[k]) || t[k]
                == '.' by {
                assert(t[k] == e[k - i]);
            }
            assert forall|a: int, b: int| i <= a < b < i + n implies !(#[trigger] t[a] == '.'
                && #[trigger] t[b] == '.') by {
                assert(t[a] == e[a - i]);
                assert(t[b] == e[b - i]);
            }
            lema_fim_numero_ate(t, i, i + n, false);
            assert(parte =~= x);
        },
        SimboloEsp::String(c) => {
            let ec = escapado(c);
            assert(e =~= seq!['"'] + ec + seq!['"']);
            assert(t[i] == e[0]);
            assert(t.subrange(i + 1, i + 1 + ec.len()) =~= ec) by {
                assert forall|k: int| 0 <= k < ec.len() implies t.subrange(
                    i + 1,
                    i + 1 + ec.len(),
                )[k] == ec[k] by {
                    assert(t[i + (k + 1)] == e[k + 1]);
                }
            }
            assert(t[i + (ec.len() + 1)] == e[ec.len() as int + 1]);
            lema_corpo_escapado(t, i + 1, c);
        },
        SimboloEsp::Identificador(x) => {
            assert(t[i] == e[0]);
            assert forall|k: int| i <= k < i + n implies continua_identificador(#[trigger] t[k]) by {
                assert(t[k] == e[k - i]);
            }
            lema_fim_identificador_ate(t, i, i + n);
            assert(parte =~= x);
        },
        SimboloEsp::And => {
            assert(t[i] == e[0] && t[i + 1] == e[1] && t[i + 2] == e[2]);
            lema_fim_identificador_ate(t, i, i + 3);
            assert(parte =~= seq!['a', 'n', 'd']);
        },
        SimboloEsp::Or => {
            assert(t[i] == e[0] && t[i + 1] == e[1]);
            lema_fim_identificador_ate(t, i, i + 2);
            assert(parte =~= seq!['o', 'r']);
            assert(parte != seq!['a', 'n', 'd']) by {
                assert(parte.len() == 2);
            }
        },
        SimboloEsp::Var => {
            assert(t[i] == e[0] && t[i + 1] == e[1] && t[i + 2] == e[2]);
            lema_fim_identificador_ate(t, i, i + 3);
            assert(parte =~= seq!['v', 'a', 'r']);
            assert(parte != seq!['a', 'n', 'd']) by {
                assert(parte[0] == 'v');
            }
            assert(parte != seq!['o', 'r']) by {
                assert(parte.len() == 3);
            }
        },
        SimboloEsp::If => {
            assert(t[i] == e[0] && t[i + 1] == e[1]);
            lema_fim_identificador_ate(t, i, i + 2);
            assert(parte =~= seq!['i', 'f']);
            assert(parte != seq!['a', 'n', 'd']) by {
                assert(parte.len() == 2);
            }
            assert(parte != seq!['o', 'r']) by {
                assert(parte[0] == 'i');
            }
            assert(parte != seq!['v', 'a', 'r']) by {
                assert(parte.len() == 2);
            }
        },
        SimboloEsp::Else => {
            assert(t[i] == e[0] && t[i + 1] == e[1] && t[i + 2] == e[2] && t[i + 3] == e[3]);
            lema_fim_identificador_ate(t, i, i + 4);
            assert(parte =~= seq!['e', 'l', 's', 'e']);
            assert(parte.len() == 4);
            assert(parte != seq!['a', 'n', 'd']) by {
                assert(seq!['a', 'n', 'd'].len() == 3);
            }
            assert(parte != seq!['o', 'r']) by {
                assert(seq!['o', 'r'].len() == 2);
            }
            assert(parte != seq!['v', 'a', 'r']) by {
                assert(seq!['v', 'a', 'r'].len() == 3);
            }
            assert(parte != seq!['i', 'f']) by {
                assert(seq!['i', 'f'].len() == 2);
            }
        },
        SimboloEsp::While => {
            assert(t[i] == e[0] && t[i + 1] == e[1] && t[i + 2] == e[2] && t[i + 3] == e[3] && t[i
                + 4] == e[4]);
            lema_fim_identificador_ate(t, i, i + 5);
            assert(parte =~= seq!['w', 'h', 'i', 'l', 'e']);
            assert(parte.len() == 5);
            assert(parte != seq!['a', 'n', 'd']) by {
                assert(seq!['a', 'n', 'd'].len() == 3);
            }
            assert(parte != seq!['o', 'r']) by {
                assert(seq!['o', 'r'].len() == 2);
            }
            assert(parte != seq!['v', 'a', 'r']) by {
                assert(seq!['v', 'a', 'r'].len() == 3);
            }
            assert(parte != seq!['i', 'f']) by {
                assert(seq!['i', 'f'].len() == 2);
            }
            assert(parte != seq!['e', 'l', 's', 'e']) by {
                assert(seq!['e', 'l', 's', 'e'].len() == 4);
            }
        },
        SimboloEsp::Print => {
            assert(t[i] == e[0] && t[i + 1] == e[1] && t[i + 2] == e[2] && t[i + 3] == e[3] && t[i
                + 4] == e[4]);
            lema_fim_identificador_ate(t, i, i + 5);
            assert(parte =~= seq!['p', 'r', 'i', 'n', 't']);
            assert(parte.len() == 5);
            assert(parte != seq!['a', 'n', 'd']) by {
                assert(seq!['a', 'n', 'd'].len() == 3);
            }
            assert(parte != seq!['o', 'r']) by {
                assert(seq!['o', 'r'].len() == 2);
            }
            assert(parte != seq!['v', 'a', 'r']) by {
                assert(seq!['v', 'a', 'r'].len() == 3);
            }
            assert(parte != seq!['i', 'f']) by {
                assert(seq!['i', 'f'].len() == 2);
            }
            assert(parte != seq!['e', 'l', 's', 'e']) by {
                assert(seq!['e', 'l', 's', 'e'].len() == 4);
            }
            assert(parte != seq!['w', 'h', 'i', 'l', 'e']) by {
                assert(parte[0] == 'p');
                assert(seq!['w', 'h', 'i', 'l', 'e'][0] == 'w');
            }
        },
        SimboloEsp::MaiorIgual => {
            assert(t[i] == e[0] && t[i + 1] == e[1]);
        },
        SimboloEsp::MenorIgual => {
            assert(t[i] == e[0] && t[i + 1] == e[1]);
        },
        SimboloEsp::IgualIgual => {
            assert(t[i] == e[0] && t[i + 1] == e[1]);
        },
        SimboloEsp::Diferente => {
            assert(t[i] == e[0] && t[i + 1] == e[1]);
        },
        _ => {
            assert(t[i] == e[0]);
        },
    }
}

/// Reading the text of a well-formed sequence gives that sequence, whatever
/// stands before the text.
pub proof fn lema_reler_de(antes: Seq<char>, s: Seq<SimboloEsp>)
    requires
        bem_formados(s),
    ensures
        lexico_de(antes + texto_de(s), antes.len() as int) == Ok::<Seq<SimboloEsp>, ErroLexico>(s),
    decreases s.len(),
{
    let t = antes + texto_de(s);
    let i = antes.len() as int;
    let e = escrito(s[0]);
    let resto = s.drop_first();
    assert(texto_de(s) == e + seq![' '] + texto_de(resto));
    if s.len() == 1 {
        assert(texto_de(resto) =~= Seq::<char>::empty()) by {
            assert(resto.len() == 0);
        }
        assert(e =~= Seq::<char>::empty());
        assert(t =~= antes + seq![' ']);
        assert(t[i] == ' ');
        assert(lexico_de(t, i + 1) == Ok::<Seq<SimboloEsp>, ErroLexico>(seq![SimboloEsp::Fim]));
        assert(s =~= seq![SimboloEsp::Fim]);
    } else {
        assert(s[0] !is Fim && valido(s[0]));
        assert(bem_formados(resto)) by {
            assert(resto.last() == s.last());
            assert forall|k: int| 0 <= k < resto.len() - 1 implies (#[trigger] resto[k]) !is Fim
                && valido(resto[k]) by {
                assert(resto[k] == s[k + 1]);
            }
        }
        let depois = antes + e + seq![' '];
        assert(t =~= depois + texto_de(resto));
        lema_reler_de(depois, resto);
        assert(t.subrange(i, i + e.len()) =~= e);
        assert(t[i + e.len()] == ' ');
        lema_ler_escrito(t, i, s[0]);
        let j = i + e.len();
        assert(eh_espaco(t[j]));
        assert(lexico_de(t, j) == lexico_de(t, j + 1));
        assert(depois.len() == j + 1);
        assert(seq![s[0]] + resto =~= s);
    }
}

/// Reading again what was read gives the same symbols: where the lexer makes
/// the symbols `s` of a text, it makes `s` of the text of `s` too.
pub proof fn lema_reler(t: Seq<char>)
    requires
        lexico(t) is Ok,
    ensures
        lexico(texto_de(lexico(t)->Ok_0)) == lexico(t),
{
    let s = lexico(t)->Ok_0;
    lema_lexico_bem_formado(t, 0);
    lema_reler_de(Seq::empty(), s);
    assert(Seq::<char>::empty() + texto_de(s) =~= texto_de(s));
}

fn escrever_fixo(t: &Simbolo) -> (r: &'static str)
    ensures
        !(t is Numero || t is String || t is Identificador) ==> r@ == escrito(t@),
{
    proof {
        reveal_strlit(".");
        reveal_strlit("(");
        reveal_strlit(")");
        reveal_strlit("{");
        reveal_strlit("}");
        reveal_strlit(",");
        reveal_strlit(";");
        reveal_strlit("!");
        reveal_strlit("+");
        reveal_strlit("-");
        reveal_strlit("*");
        reveal_strlit("/");
        reveal_strlit("%");
        reveal_strlit("and");
        reveal_strlit("or");
        reveal_strlit("=");
        reveal_strlit(">");
        reveal_strlit("<");
        reveal_strlit(">=");
        reveal_strlit("<=");
        reveal_strlit("==");
        reveal_strlit("!=");
        reveal_strlit("var");
        reveal_strlit("if");
        reveal_strlit("else");
        reveal_strlit("while");
        reveal_strlit("print");
        reveal_strlit("");
    }
    let r = match t {
        Simbolo::Ponto => ".",
        Simbolo::AbreParenteses => "(",
        Simbolo::FechaParenteses => ")",
        Simbolo::AbreChaves => "{",
        Simbolo::FechaChaves => "}",
        Simbolo::Virgula => ",",
        Simbolo::PontoVirgula => ";",
        Simbolo::Negacao => "!",
        Simbolo::Soma => "+",
        Simbolo::Subtracao => "-",
        Simbolo::Multiplicacao => "*",
        Simbolo::Divisao => "/",
        Simbolo::Modulo => "%",
        Simbolo::And => "and",
        Simbolo::Or => "or",
        Simbolo::Igual => "=",
        Simbolo::Maior => ">",
        Simbolo::Menor => "<",
        Simbolo::MaiorIgual => ">=",
        Simbolo::MenorIgual => "<=",
        Simbolo::IgualIgual => "==",
        Simbolo::Diferente => "!=",
        Simbolo::Var => "var",
        Simbolo::If => "if",
        Simbolo::Else => "else",
        Simbolo::While => "while",
        Simbolo::Print => "print",
        _ => "",
    };
    assert(!(t is Numero || t is String || t is Identificador) ==> r@ =~= escrito(t@));
    r
}

fn escrever_escapado(saida: &mut String, conteudo: &str)
    ensures
        final(saida)@ == old(saida)@ + escapado(conteudo@),
{
    let c = caracteres(conteudo);
    let mut i: usize = 0;
    assert(c@.subrange(0, c@.len() as int) =~= c@);
    assert(saida@ + escapado(c@.subrange(0, c@.len() as int)) == old(saida)@ + escapado(c@));
    while i < c.len()
        invariant
            i <= c@.len(),
            c@ == conteudo@,
            saida@ + escapado(c@.subrange(i as int, c@.len() as int)) == old(saida)@ + escapado(c@),
        decreases c@.len() - i,
    {
        let x = c[i];
        let ghost antes = saida@;
        let ghost aqui = c@.subrange(i as int, c@.len() as int);
        let ghost depois = c@.subrange(i + 1, c@.len() as int);
        assert(aqui.drop_first() =~= depois);
        assert(aqui[0] == x);
        if x == '"' || x == '\\' {
            saida.push('\\');
            saida.push(x);
            assert(saida@ + escapado(depois) =~= antes + (seq!['\\', x] + escapado(depois)));
        } else {
            saida.push(x);
            assert(saida@ + escapado(depois) =~= antes + (seq![x] + escapado(depois)));
        }
        i = i + 1;
    }
    assert(c@.subrange(i as int, c@.len() as int) =~= Seq::<char>::empty());
    assert(saida@ + Seq::<char>::empty() =~= saida@);
}

/// The text of `simbolos`: the text of each symbol, followed by one space.
/// The lexer reads the text of symbols that it gave as those symbols
/// (`lema_reler`).
pub fn escrever(simbolos: &Vec<Simbolo>) -> (r: String)
    ensures
        r@ == texto_de(modelos(simbolos@)),
{
    let mut r = String::new();
    let ghost m = modelos(simbolos@);
    let mut i: usize = 0;
    assert(m.subrange(0, m.len() as int) =~= m);
    assert(r@ + texto_de(m) =~= texto_de(m));
    while i < simbolos.len()
        invariant
            i <= simbolos@.len(),
            m == modelos(simbolos@),
            r@ + texto_de(m.subrange(i as int, m.len() as int)) == texto_de(m),
        decreases simbolos@.len() - i,
    {
        let ghost antes = r@;
        let ghost aqui = m.subrange(i as int, m.len() as int);
        let ghost depois = m.subrange(i + 1, m.len() as int);
        assert(aqui.drop_first() =~= depois);
        assert(aqui[0] == simbolos@[i as int]@);
        match &simbolos[i] {
            Simbolo::Numero(n) => {
                r.append(n.as_str());
            },
            Simbolo::Identificador(n) => {
                r.append(n.as_str());
            },
            Simbolo::String(c) => {
                r.push('"');
                escrever_escapado(&mut r, c.as_str());
                r.push('"');
                assert(r@ =~= antes + (seq!['"'] + escapado(c@) + seq!['"']));
            },
            outro => {
                r.append(escrever_fixo(outro));
            },
        }
        assert(r@ == antes + escrito(aqui[0]));
        r.push(' ');
        assert(r@ + texto_de(depois) =~= antes + (escrito(aqui[0]) + seq![' '] + texto_de(depois)));
        i = i + 1;
    }
    assert(m.subrange(i as int, m.len() as int) =~= Seq::<SimboloEsp>::empty());
    assert(r@ + Seq::<char>::empty() =~= r@);
    r
}

} // verus!
