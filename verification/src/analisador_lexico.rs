//! The lexer: from one line of text to its sequence of symbols.
//!
//! The rules are given once, as spec functions over a sequence of characters
//! (`lexico` and what it is built from); `analisar` is proved to compute them.
use vstd::prelude::*;
use crate::texto::{caracteres, fatia};

verus! {

/// One lexical unit.
///
/// A numeric literal keeps its text (digits, with at most one decimal point),
/// so that no precision is lost before a value is asked for. A string literal
/// holds its contents with the escapes already resolved.
#[derive(Debug, Clone, PartialEq)]
pub enum Simbolo {
    Numero(String),
    String(String),
    Identificador(String),
    Ponto,
    AbreParenteses,
    FechaParenteses,
    AbreChaves,
    FechaChaves,
    Virgula,
    PontoVirgula,
    Negacao,
    Soma,
    Subtracao,
    Multiplicacao,
    Divisao,
    Modulo,
    And,
    Or,
    Igual,
    Maior,
    Menor,
    MaiorIgual,
    MenorIgual,
    IgualIgual,
    Diferente,
    Var,
    If,
    Else,
    While,
    Print,
    Fim,
}

/// The mathematical model of a `Simbolo`: the same variants over sequences of
/// characters.
pub enum SimboloEsp {
    Numero(Seq<char>),
    String(Seq<char>),
    Identificador(Seq<char>),
    Ponto,
    AbreParenteses,
    FechaParenteses,
    AbreChaves,
    FechaChaves,
    Virgula,
    PontoVirgula,
    Negacao,
    Soma,
    Subtracao,
    Multiplicacao,
    Divisao,
    Modulo,
    And,
    Or,
    Igual,
    Maior,
    Menor,
    MaiorIgual,
    MenorIgual,
    IgualIgual,
    Diferente,
    Var,
    If,
    Else,
    While,
    Print,
    Fim,
}

impl View for Simbolo {
    type V = SimboloEsp;

    open spec fn view(&self) -> SimboloEsp {
        match self {
            Simbolo::Numero(s) => SimboloEsp::Numero(s@),
            Simbolo::String(s) => SimboloEsp::String(s@),
            Simbolo::Identificador(s) => SimboloEsp::Identificador(s@),
            Simbolo::Ponto => SimboloEsp::Ponto,
            Simbolo::AbreParenteses => SimboloEsp::AbreParenteses,
            Simbolo::FechaParenteses => SimboloEsp::FechaParenteses,
            Simbolo::AbreChaves => SimboloEsp::AbreChaves,
            Simbolo::FechaChaves => SimboloEsp::FechaChaves,
            Simbolo::Virgula => SimboloEsp::Virgula,
            Simbolo::PontoVirgula => SimboloEsp::PontoVirgula,
            Simbolo::Negacao => SimboloEsp::Negacao,
            Simbolo::Soma => SimboloEsp::Soma,
            Simbolo::Subtracao => SimboloEsp::Subtracao,
            Simbolo::Multiplicacao => SimboloEsp::Multiplicacao,
            Simbolo::Divisao => SimboloEsp::Divisao,
            Simbolo::Modulo => SimboloEsp::Modulo,
            Simbolo::And => SimboloEsp::And,
            Simbolo::Or => SimboloEsp::Or,
            Simbolo::Igual => SimboloEsp::Igual,
            Simbolo::Maior => SimboloEsp::Maior,
            Simbolo::Menor => SimboloEsp::Menor,
            Simbolo::MaiorIgual => SimboloEsp::MaiorIgual,
            Simbolo::MenorIgual => SimboloEsp::MenorIgual,
            Simbolo::IgualIgual => SimboloEsp::IgualIgual,
            Simbolo::Diferente => SimboloEsp::Diferente,
            Simbolo::Var => SimboloEsp::Var,
            Simbolo::If => SimboloEsp::If,
            Simbolo::Else => SimboloEsp::Else,
            Simbolo::While => SimboloEsp::While,
            Simbolo::Print => SimboloEsp::Print,
            Simbolo::Fim => SimboloEsp::Fim,
        }
    }
}

/// The models of a sequence of symbols, one for one.
pub open spec fn modelos(v: Seq<Simbolo>) -> Seq<SimboloEsp> {
    Seq::new(v.len(), |i: int| v[i]@)
}

/// A character that belongs to no symbol, with its index among the characters
/// of the line.
#[derive(Debug, Clone, Copy, PartialEq, Eq)]
pub struct ErroLexico {
    pub caractere: char,
    pub posicao: usize,
}

/// A decimal digit.
pub open spec fn eh_digito(c: char) -> bool {
    '0' <= c <= '9'
}

/// A letter of the Latin alphabet, small or capital, without accents.
pub open spec fn eh_letra(c: char) -> bool {
    ('a' <= c <= 'z') || ('A' <= c <= 'Z')
}

/// A character that may start a name.
pub open spec fn inicia_identificador(c: char) -> bool {
    eh_letra(c) || c == '_'
}

/// A character that may go on a name.
pub open spec fn continua_identificador(c: char) -> bool {
    eh_letra(c) || eh_digito(c) || c == '_'
}

/// Space, tab and newline separate symbols and are otherwise skipped.
pub open spec fn eh_espaco(c: char) -> bool {
    c == ' ' || c == '\t' || c == '\n'
}

/// The index just after the longest run of identifier characters that starts
/// at `i`.
pub open spec fn fim_identificador(t: Seq<char>, i: int) -> int
    decreases t.len() - i,
{
    if 0 <= i < t.len() && continua_identificador(t[i]) {
        fim_identificador(t, i + 1)
    } else {
        i
    }
}

/// The index just after the longest run of digits that starts at `i` and holds
/// at most one decimal point; `ponto` says that the point was already met.
pub open spec fn fim_numero(t: Seq<char>, i: int, ponto: bool) -> int
    decreases t.len() - i,
{
    if 0 <= i < t.len() && (eh_digito(t[i]) || (t[i] == '.' && !ponto)) {
        fim_numero(t, i + 1, ponto || t[i] == '.')
    } else {
        i
    }
}

/// The character that stands for `c` after a backslash: the five recognised
/// escapes give their character, any other character gives itself.
pub open spec fn escape(c: char) -> char {
    if c == 'n' {
        '\n'
    } else if c == 'r' {
        '\r'
    } else if c == 't' {
        '\t'
    } else {
        c
    }
}

/// The contents of a string literal whose first character after the opening
/// quote is at `i`, and the index just after the literal. The literal ends at
/// the closing quote, or at the end of the text when there is none; a
/// backslash that ends the text is dropped.
pub open spec fn corpo_texto(t: Seq<char>, i: int) -> (Seq<char>, int)
    decreases t.len() - i,
{
    if i < 0 || i >= t.len() {
        (Seq::empty(), i)
    } else if t[i] == '"' {
        (Seq::empty(), i + 1)
    } else if t[i] == '\\' {
        if i + 1 < t.len() {
            let (resto, j) = corpo_texto(t, i + 2);
            (seq![escape(t[i + 1])] + resto, j)
        } else {
            (Seq::empty(), i + 1)
        }
    } else {
        let (resto, j) = corpo_texto(t, i + 1);
        (seq![t[i]] + resto, j)
    }
}

/// The symbol that a word stands for: one of the seven keywords, or else an
/// identifier.
pub open spec fn palavra(s: Seq<char>) -> SimboloEsp {
    if s == seq!['a', 'n', 'd'] {
        SimboloEsp::And
    } else if s == seq!['o', 'r'] {
        SimboloEsp::Or
    } else if s == seq!['v', 'a', 'r'] {
        SimboloEsp::Var
    } else if s == seq!['i', 'f'] {
        SimboloEsp::If
    } else if s == seq!['e', 'l', 's', 'e'] {
        SimboloEsp::Else
    } else if s == seq!['w', 'h', 'i', 'l', 'e'] {
        SimboloEsp::While
    } else if s == seq!['p', 'r', 'i', 'n', 't'] {
        SimboloEsp::Print
    } else {
        SimboloEsp::Identificador(s)
    }
}

/// The four characters that may be followed by `=` to form one symbol.
pub open spec fn inicia_duplo(c: char) -> bool {
    c == '=' || c == '!' || c == '>' || c == '<'
}

/// The symbol of `c` alone, for the four characters of `inicia_duplo`.
pub open spec fn simples(c: char) -> SimboloEsp {
    if c == '=' {
        SimboloEsp::Igual
    } else if c == '!' {
        SimboloEsp::Negacao
    } else if c == '>' {
        SimboloEsp::Maior
    } else {
        SimboloEsp::Menor
    }
}

/// The symbol of `c` followed by `=`, for the four characters of
/// `inicia_duplo`.
pub open spec fn duplo(c: char) -> SimboloEsp {
    if c == '=' {
        SimboloEsp::IgualIgual
    } else if c == '!' {
        SimboloEsp::Diferente
    } else if c == '>' {
        SimboloEsp::MaiorIgual
    } else {
        SimboloEsp::MenorIgual
    }
}

/// The symbol of a single-character punctuation mark, if `c` is one.
pub open spec fn pontuacao(c: char) -> Option<SimboloEsp> {
    if c == '.' {
        Some(SimboloEsp::Ponto)
    } else if c == '(' {
        Some(SimboloEsp::AbreParenteses)
    } else if c == ')' {
        Some(SimboloEsp::FechaParenteses)
    } else if c == '{' {
        Some(SimboloEsp::AbreChaves)
    } else if c == '}' {
        Some(SimboloEsp::FechaChaves)
    } else if c == ',' {
        Some(SimboloEsp::Virgula)
    } else if c == ';' {
        Some(SimboloEsp::PontoVirgula)
    } else if c == '+' {
        Some(SimboloEsp::Soma)
    } else if c == '-' {
        Some(SimboloEsp::Subtracao)
    } else if c == '*' {
        Some(SimboloEsp::Multiplicacao)
    } else if c == '/' {
        Some(SimboloEsp::Divisao)
    } else if c == '%' {
        Some(SimboloEsp::Modulo)
    } else {
        None
    }
}

/// The symbol that starts at index `i` of `t`, with the index just after it;
/// `None` when the character at `i` starts no symbol. Meant for an `i` inside
/// the text at which no space stands.
pub open spec fn ler(t: Seq<char>, i: int) -> Option<(SimboloEsp, int)> {
    let c = t[i];
    if c == '"' {
        let (s, j) = corpo_texto(t, i + 1);
        Some((SimboloEsp::String(s), j))
    } else if inicia_identificador(c) {
        let j = fim_identificador(t, i);
        Some((palavra(t.subrange(i, j)), j))
    } else if eh_digito(c) {
        let j = fim_numero(t, i, false);
        Some((SimboloEsp::Numero(t.subrange(i, j)), j))
    } else if inicia_duplo(c) {
        if i + 1 < t.len() && t[i + 1] == '=' {
            Some((duplo(c), i + 2))
        } else {
            Some((simples(c), i + 1))
        }
    } else {
        match pontuacao(c) {
            Some(s) => Some((s, i + 1)),
            None => None,
        }
    }
}

/// A name ends inside the text, and after its first character where it has
/// one.
pub proof fn lema_fim_identificador(t: Seq<char>, i: int)
    requires
        0 <= i <= t.len(),
    ensures
        i <= fim_identificador(t, i) <= t.len(),
        0 <= i < t.len() && continua_identificador(t[i]) ==> i < fim_identificador(t, i),
    decreases t.len() - i,
{
    if i < t.len() && continua_identificador(t[i]) {
        lema_fim_identificador(t, i + 1);
    }
}

/// A number ends inside the text, and after its first digit where it has
/// one.
pub proof fn lema_fim_numero(t: Seq<char>, i: int, ponto: bool)
    requires
        0 <= i <= t.len(),
    ensures
        i <= fim_numero(t, i, ponto) <= t.len(),
        0 <= i < t.len() && eh_digito(t[i]) ==> i < fim_numero(t, i, ponto),
    decreases t.len() - i,
{
    if i < t.len() && (eh_digito(t[i]) || (t[i] == '.' && !ponto)) {
        lema_fim_numero(t, i + 1, ponto || t[i] == '.');
    }
}

/// A string literal ends inside the text.
pub proof fn lema_corpo_texto(t: Seq<char>, i: int)
    requires
        0 <= i <= t.len(),
    ensures
        i <= corpo_texto(t, i).1 <= t.len(),
    decreases t.len() - i,
{
    if i < t.len() && t[i] != '"' {
        if t[i] == '\\' {
            if i + 1 < t.len() {
                lema_corpo_texto(t, i + 2);
            }
        } else {
            lema_corpo_texto(t, i + 1);
        }
    }
}

/// Every symbol takes at least one character and ends inside the text.
pub proof fn lema_ler_avanca(t: Seq<char>, i: int)
    requires
        0 <= i < t.len(),
    ensures
        ler(t, i) matches Some((s, j)) ==> i < j <= t.len(),
{
    lema_corpo_texto(t, i + 1);
    lema_fim_identificador(t, i);
    lema_fim_numero(t, i, false);
}

/// `antes` followed by the symbols of `r`, or the error of `r`.
pub open spec fn juntar(antes: Seq<SimboloEsp>, r: Result<Seq<SimboloEsp>, ErroLexico>) -> Result<
    Seq<SimboloEsp>,
    ErroLexico,
> {
    match r {
        Ok(s) => Ok(antes + s),
        Err(e) => Err(e),
    }
}

/// The symbols of `t` from index `i` on, closed by `Fim`; or the first
/// character from `i` on that starts no symbol, with its index.
pub open spec fn lexico_de(t: Seq<char>, i: int) -> Result<Seq<SimboloEsp>, ErroLexico>
    decreases t.len() - i,
{
    if i < 0 || i >= t.len() {
        Ok(seq![SimboloEsp::Fim])
    } else if eh_espaco(t[i]) {
        lexico_de(t, i + 1)
    } else {
        match ler(t, i) {
            Some((s, j)) => {
                proof {
                    lema_ler_avanca(t, i);
                }
                juntar(seq![s], lexico_de(t, j))
            },
            None => Err(ErroLexico { caractere: t[i], posicao: i as usize }),
        }
    }
}

/// What the lexer makes of a whole line.
pub open spec fn lexico(t: Seq<char>) -> Result<Seq<SimboloEsp>, ErroLexico> {
    lexico_de(t, 0)
}

/// The model of what `analisar` returns.
pub open spec fn modelo_do_resultado(r: Result<Vec<Simbolo>, ErroLexico>) -> Result<
    Seq<SimboloEsp>,
    ErroLexico,
> {
    match r {
        Ok(v) => Ok(modelos(v@)),
        Err(e) => Err(e),
    }
}

fn ler_texto(t: &Vec<char>, inicio: usize) -> (r: (String, usize))
    requires
        inicio <= t@.len(),
    ensures
        (r.0@, r.1 as int) == corpo_texto(t@, inicio as int),
        inicio <= r.1 <= t@.len(),
{
    let mut s = String::new();
    let mut i: usize = inicio;
    loop
        invariant
            inicio <= i <= t@.len(),
            corpo_texto(t@, inicio as int) == (
                s@ + corpo_texto(t@, i as int).0,
                corpo_texto(t@, i as int).1,
            ),
        decreases t@.len() - i,
    {
        if i >= t.len() {
            assert(s@ + Seq::<char>::empty() =~= s@);
            return (s, i);
        }
        let c = t[i];
        if c == '"' {
            assert(s@ + Seq::<char>::empty() =~= s@);
            return (s, i + 1);
        }
        if c == '\\' {
            if i + 1 < t.len() {
                let e = t[i + 1];
                let ghost antes = s@;
                let r = if e == 'n' {
                    '\n'
                } else if e == 'r' {
                    '\r'
                } else if e == 't' {
                    '\t'
                } else {
                    e
                };
                s.push(r);
                assert(antes + (seq![r] + corpo_texto(t@, i + 2).0) =~= s@ + corpo_texto(
                    t@,
                    i + 2,
                ).0);
                i = i + 2;
            } else {
                assert(s@ + Seq::<char>::empty() =~= s@);
                return (s, i + 1);
            }
        } else {
            let ghost antes = s@;
            s.push(c);
            assert(antes + (seq![c] + corpo_texto(t@, i + 1).0) =~= s@ + corpo_texto(
                t@,
                i + 1,
            ).0);
            i = i + 1;
        }
    }
}

fn ler_fim_identificador(t: &Vec<char>, inicio: usize) -> (j: usize)
    requires
        inicio <= t@.len(),
    ensures
        j as int == fim_identificador(t@, inicio as int),
        inicio <= j <= t@.len(),
{
    let mut i: usize = inicio;
    while i < t.len() && ((t[i] >= 'a' && t[i] <= 'z') || (t[i] >= 'A' && t[i] <= 'Z') || (t[i]
        >= '0' && t[i] <= '9') || t[i] == '_')
        invariant
            inicio <= i <= t@.len(),
            fim_identificador(t@, inicio as int) == fim_identificador(t@, i as int),
        decreases t@.len() - i,
    {
        i = i + 1;
    }
    i
}

fn ler_fim_numero(t: &Vec<char>, inicio: usize) -> (j: usize)
    requires
        inicio <= t@.len(),
    ensures
        j as int == fim_numero(t@, inicio as int, false),
        inicio <= j <= t@.len(),
{
    let mut i: usize = inicio;
    let mut ponto = false;
    while i < t.len() && ((t[i] >= '0' && t[i] <= '9') || (t[i] == '.' && !ponto))
        invariant
            inicio <= i <= t@.len(),
            fim_numero(t@, inicio as int, false) == fim_numero(t@, i as int, ponto),
        decreases t@.len() - i,
    {
        if t[i] == '.' {
            ponto = true;
        }
        i = i + 1;
    }
    i
}

fn classificar(t: &Vec<char>, i: usize, j: usize) -> (s: Simbolo)
    requires
        i <= j <= t@.len(),
    ensures
        s@ == palavra(t@.subrange(i as int, j as int)),
{
    let n = j - i;
    let ghost p = t@.subrange(i as int, j as int);
    if n == 3 && t[i] == 'a' && t[i + 1] == 'n' && t[i + 2] == 'd' {
        assert(p =~= seq!['a', 'n', 'd']);
        return Simbolo::And;
    }
    assert(p != seq!['a', 'n', 'd']) by {
        if p == seq!['a', 'n', 'd'] {
            assert(p.len() == 3 && p[0] == 'a' && p[1] == 'n' && p[2] == 'd');
        }
    }
    if n == 2 && t[i] == 'o' && t[i + 1] == 'r' {
        assert(p =~= seq!['o', 'r']);
        return Simbolo::Or;
    }
    assert(p != seq!['o', 'r']) by {
        if p == seq!['o', 'r'] {
            assert(p.len() == 2 && p[0] == 'o' && p[1] == 'r');
        }
    }
    if n == 3 && t[i] == 'v' && t[i + 1] == 'a' && t[i + 2] == 'r' {
        assert(p =~= seq!['v', 'a', 'r']);
        return Simbolo::Var;
    }
    assert(p != seq!['v', 'a', 'r']) by {
        if p == seq!['v', 'a', 'r'] {
            assert(p.len() == 3 && p[0] == 'v' && p[1] == 'a' && p[2] == 'r');
        }
    }
    if n == 2 && t[i] == 'i' && t[i + 1] == 'f' {
        assert(p =~= seq!['i', 'f']);
        return Simbolo::If;
    }
    assert(p != seq!['i', 'f']) by {
        if p == seq!['i', 'f'] {
            assert(p.len() == 2 && p[0] == 'i' && p[1] == 'f');
        }
    }
    if n == 4 && t[i] == 'e' && t[i + 1] == 'l' && t[i + 2] == 's' && t[i + 3] == 'e' {
        assert(p =~= seq!['e', 'l', 's', 'e']);
        return Simbolo::Else;
    }
    assert(p != seq!['e', 'l', 's', 'e']) by {
        if p == seq!['e', 'l', 's', 'e'] {
            assert(p.len() == 4 && p[0] == 'e' && p[1] == 'l' && p[2] == 's' && p[3] == 'e');
        }
    }
    if n == 5 && t[i] == 'w' && t[i + 1] == 'h' && t[i + 2] == 'i' && t[i + 3] == 'l' && t[i + 4]
        == 'e' {
        assert(p =~= seq!['w', 'h', 'i', 'l', 'e']);
        return Simbolo::While;
    }
    assert(p != seq!['w', 'h', 'i', 'l', 'e']) by {
        if p == seq!['w', 'h', 'i', 'l', 'e'] {
            assert(p.len() == 5 && p[0] == 'w' && p[1] == 'h' && p[2] == 'i' && p[3] == 'l' && p[4]
                == 'e');
        }
    }
    if n == 5 && t[i] == 'p' && t[i + 1] == 'r' && t[i + 2] == 'i' && t[i + 3] == 'n' && t[i + 4]
        == 't' {
        assert(p =~= seq!['p', 'r', 'i', 'n', 't']);
        return Simbolo::Print;
    }
    assert(p != seq!['p', 'r', 'i', 'n', 't']) by {
        if p == seq!['p', 'r', 'i', 'n', 't'] {
            assert(p.len() == 5 && p[0] == 'p' && p[1] == 'r' && p[2] == 'i' && p[3] == 'n' && p[4]
                == 't');
        }
    }
    Simbolo::Identificador(fatia(t, i, j))
}

fn ler_simbolo(t: &Vec<char>, i: usize) -> (r: Option<(Simbolo, usize)>)
    requires
        i < t@.len(),
    ensures
        match r {
            Some((s, j)) => ler(t@, i as int) == Some((s@, j as int)) && i < j <= t@.len(),
            None => ler(t@, i as int) is None,
        },
{
    let n: usize = t.len();
    let c = t[i];
    proof {
        lema_ler_avanca(t@, i as int);
    }
    if c == '"' {
        let (s, j) = ler_texto(t, i + 1);
        Some((Simbolo::String(s), j))
    } else if (c >= 'a' && c <= 'z') || (c >= 'A' && c <= 'Z') || c == '_' {
        let j = ler_fim_identificador(t, i);
        Some((classificar(t, i, j), j))
    } else if c >= '0' && c <= '9' {
        let j = ler_fim_numero(t, i);
        Some((Simbolo::Numero(fatia(t, i, j)), j))
    } else if c == '=' || c == '!' || c == '>' || c == '<' {
        let seguido = i + 1 < n && t[i + 1] == '=';
        if seguido {
            let s = if c == '=' {
                Simbolo::IgualIgual
            } else if c == '!' {
                Simbolo::Diferente
            } else if c == '>' {
                Simbolo::MaiorIgual
            } else {
                Simbolo::MenorIgual
            };
            Some((s, i + 2))
        } else {
            let s = if c == '=' {
                Simbolo::Igual
            } else if c == '!' {
                Simbolo::Negacao
            } else if c == '>' {
                Simbolo::Maior
            } else {
                Simbolo::Menor
            };
            Some((s, i + 1))
        }
    } else {
        let s = match c {
            '.' => Simbolo::Ponto,
            '(' => Simbolo::AbreParenteses,
            ')' => Simbolo::FechaParenteses,
            '{' => Simbolo::AbreChaves,
            '}' => Simbolo::FechaChaves,
            ',' => Simbolo::Virgula,
            ';' => Simbolo::PontoVirgula,
            '+' => Simbolo::Soma,
            '-' => Simbolo::Subtracao,
            '*' => Simbolo::Multiplicacao,
            '/' => Simbolo::Divisao,
            '%' => Simbolo::Modulo,
            _ => {
                return None;
            },
        };
        Some((s, i + 1))
    }
}

/// Turns one line of text into its symbols, closed by `Fim`. The first
/// character that starts no symbol ends the work with an error that names it;
/// no symbol of such a line is handed out.
pub fn analisar(texto: &str) -> (r: Result<Vec<Simbolo>, ErroLexico>)
    ensures
        modelo_do_resultado(r) == lexico(texto@),
{
    let t = caracteres(texto);
    let mut simbolos: Vec<Simbolo> = Vec::new();
    let mut i: usize = 0;
    assert(modelos(simbolos@) + lexico_de(t@, 0)->Ok_0 =~= lexico_de(t@, 0)->Ok_0);
    while i < t.len()
        invariant
            i <= t@.len(),
            t@ == texto@,
            lexico_de(t@, 0) == juntar(modelos(simbolos@), lexico_de(t@, i as int)),
        decreases t@.len() - i,
    {
        let c = t[i];
        if c == ' ' || c == '\t' || c == '\n' {
            i = i + 1;
        } else {
            match ler_simbolo(&t, i) {
                Some((s, j)) => {
                    let ghost antes = modelos(simbolos@);
                    simbolos.push(s);
                    proof {
                        assert(modelos(simbolos@) =~= antes + seq![s@]);
                        match lexico_de(t@, j as int) {
                            Ok(resto) => {
                                assert(antes + (seq![s@] + resto) =~= (antes + seq![s@]) + resto);
                            },
                            Err(_) => {},
                        }
                    }
                    i = j;
                },
                None => {
                    return Err(ErroLexico { caractere: c, posicao: i });
                },
            }
        }
    }
    let ghost antes = modelos(simbolos@);
    simbolos.push(Simbolo::Fim);
    assert(modelos(simbolos@) =~= antes + seq![SimboloEsp::Fim]);
    Ok(simbolos)
}

} // verus!
