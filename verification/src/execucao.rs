//! A whole run: the lines of a source text, read one by one and evaluated in
//! turn with one set of variables.
//!
//! `Programa` holds what reading made of each line. `Execucao` goes through
//! them step by step, as the machine of `avaliador` goes through a tree, and
//! asks its host for the same things; a line that could not be read is
//! reported and passed over.
//!
//! `executa` says what the lines mean together. A run and that meaning agree
//! in both directions (`lema_execucao`, `lema_execucao_volta`).
use vstd::prelude::*;
use crate::analisador_lexico::{analisar, lexico, ErroLexico};
use crate::analisador_sintatico::{declaracao, Analisador};
use crate::arvore_sintatica_abstrata::{Expr, ExprEsp, OpBinario};
use crate::avaliador::{acao_esp, passo_esp, Acao, AcaoEsp, Ambiente, Avaliacao, EstadoEsp, ModoEsp};
use crate::impressao::textos;
use crate::semantica::{
    avalia, chegada, corre, lema_avalia, lema_corre_soma, lema_fundo, lema_maquina_parada,
    lema_volta, maior, um_passo, Resultado,
};
use crate::texto::{caracteres, fatia};
use crate::valores::Valor;

verus! {

/// Why a line could not be read.
#[derive(Debug, Clone, Copy, PartialEq, Eq)]
pub enum Erro {
    /// A character of the line starts no symbol.
    Lexico(ErroLexico),
    /// The symbol at this index of the line's symbols is not one that could
    /// stand there.
    Sintatico(usize),
}

/// What reading made of one line.
#[derive(Debug, PartialEq)]
pub enum Linha {
    /// Nothing but blanks.
    EmBranco,
    /// A statement.
    Instrucao(Expr),
    /// A line that could not be read.
    Falha(Erro),
}

/// The model of a `Linha`.
pub enum LinhaEsp {
    EmBranco,
    Instrucao(ExprEsp),
    Falha(Erro),
}

impl View for Linha {
    type V = LinhaEsp;

    open spec fn view(&self) -> LinhaEsp {
        match self {
            Linha::EmBranco => LinhaEsp::EmBranco,
            Linha::Instrucao(e) => LinhaEsp::Instrucao(e@),
            Linha::Falha(e) => LinhaEsp::Falha(*e),
        }
    }
}

/// A character that a blank line may hold: one of those that Unicode calls
/// white space.
pub open spec fn eh_branco(c: char) -> bool {
    ||| '\u{9}' <= c <= '\u{d}'
    ||| c == ' '
    ||| c == '\u{85}'
    ||| c == '\u{a0}'
    ||| c == '\u{1680}'
    ||| '\u{2000}' <= c <= '\u{200a}'
    ||| c == '\u{2028}'
    ||| c == '\u{2029}'
    ||| c == '\u{202f}'
    ||| c == '\u{205f}'
    ||| c == '\u{3000}'
}

/// Whether a line holds nothing but blanks.
pub open spec fn branca(l: Seq<char>) -> bool {
    forall|i: int| 0 <= i < l.len() ==> eh_branco(#[trigger] l[i])
}

/// The index of the first newline of `t` at or after `i`, or the length of
/// `t` where there is none.
pub open spec fn fim_da_linha(t: Seq<char>, i: int) -> int
    decreases t.len() - i,
{
    if 0 <= i < t.len() && t[i] != '\n' {
        fim_da_linha(t, i + 1)
    } else {
        i
    }
}

/// The line `l` without the carriage return that ends it, if one does.
pub open spec fn sem_retorno(l: Seq<char>) -> Seq<char> {
    if l.len() > 0 && l.last() == '\r' {
        l.drop_last()
    } else {
        l
    }
}

pub proof fn lema_fim_da_linha(t: Seq<char>, i: int)
    requires
        0 <= i <= t.len(),
    ensures
        i <= fim_da_linha(t, i) <= t.len(),
    decreases t.len() - i,
{
    if i < t.len() && t[i] != '\n' {
        lema_fim_da_linha(t, i + 1);
    }
}

/// The lines of `t` from index `i` on, at which a line starts. A line ends
/// with a newline, or with a carriage return and a newline, which are no part
/// of it; the last line may end with the text, and is no line if it is empty.
pub open spec fn linhas_de(t: Seq<char>, i: int) -> Seq<Seq<char>>
    decreases t.len() - i,
{
    if i < 0 || i >= t.len() {
        Seq::empty()
    } else {
        let j = fim_da_linha(t, i);
        if i <= j < t.len() {
            seq![sem_retorno(t.subrange(i, j))] + linhas_de(t, j + 1)
        } else {
            seq![t.subrange(i, t.len() as int)]
        }
    }
}

/// What reading makes of the line `l`: the first statement on it, or the
/// reason why there is none. What follows the statement on the line is not
/// looked at.
pub open spec fn leitura(l: Seq<char>) -> Result<ExprEsp, Erro> {
    match lexico(l) {
        Err(e) => Err(Erro::Lexico(e)),
        Ok(s) => match declaracao(s, 0) {
            Ok((e, _)) => Ok(e),
            Err(p) => Err(Erro::Sintatico(p as usize)),
        },
    }
}

/// What reading makes of the line `l`, blank or not.
pub open spec fn linha_lida(l: Seq<char>) -> LinhaEsp {
    if branca(l) {
        LinhaEsp::EmBranco
    } else {
        match leitura(l) {
            Ok(e) => LinhaEsp::Instrucao(e),
            Err(e) => LinhaEsp::Falha(e),
        }
    }
}

/// What reading makes of a whole text, line by line.
pub open spec fn programa_lido(t: Seq<char>) -> Seq<LinhaEsp> {
    linhas_de(t, 0).map_values(|l: Seq<char>| linha_lida(l))
}

/// The model of what `analisar_linha` returns.
pub open spec fn modelo_da_leitura(r: Result<Expr, Erro>) -> Result<ExprEsp, Erro> {
    match r {
        Ok(e) => Ok(e@),
        Err(e) => Err(e),
    }
}

/// Whether `linha` holds nothing but blanks.
pub fn em_branco(linha: &str) -> (r: bool)
    ensures
        r == branca(linha@),
{
    let t = caracteres(linha);
    let mut i: usize = 0;
    while i < t.len()
        invariant
            i <= t@.len(),
            t@ == linha@,
            forall|k: int| 0 <= k < i ==> eh_branco(#[trigger] t@[k]),
        decreases t@.len() - i,
    {
        let c = t[i];
        let branco = ('\u{9}' <= c && c <= '\u{d}') || c == ' ' || c == '\u{85}' || c == '\u{a0}'
            || c == '\u{1680}' || ('\u{2000}' <= c && c <= '\u{200a}') || c == '\u{2028}' || c
            == '\u{2029}' || c == '\u{202f}' || c == '\u{205f}' || c == '\u{3000}';
        if !branco {
            return false;
        }
        i = i + 1;
    }
    true
}

/// Splits `texto` into its lines.
pub fn separar_linhas(texto: &str) -> (r: Vec<String>)
    ensures
        textos(r@) == linhas_de(texto@, 0),
{
    let t = caracteres(texto);
    let mut r: Vec<String> = Vec::new();
    let mut i: usize = 0;
    assert(textos(r@) + linhas_de(t@, 0) =~= linhas_de(t@, 0));
    while i < t.len()
        invariant
            i <= t@.len(),
            t@ == texto@,
            textos(r@) + linhas_de(t@, i as int) == linhas_de(t@, 0),
        decreases t@.len() - i,
    {
        let mut j: usize = i;
        while j < t.len() && t[j] != '\n'
            invariant
                i <= j <= t@.len(),
                fim_da_linha(t@, i as int) == fim_da_linha(t@, j as int),
            decreases t@.len() - j,
        {
            j = j + 1;
        }
        let ghost antes = textos(r@);
        if j < t.len() {
            let fim: usize = if j > i && t[j - 1] == '\r' {
                j - 1
            } else {
                j
            };
            let l = fatia(&t, i, fim);
            assert(l@ =~= sem_retorno(t@.subrange(i as int, j as int)));
            r.push(l);
            assert(textos(r@) =~= antes.push(l@));
            assert(antes + (seq![l@] + linhas_de(t@, j + 1)) =~= antes.push(l@) + linhas_de(
                t@,
                j + 1,
            ));
            i = j + 1;
        } else {
            let l = fatia(&t, i, j);
            r.push(l);
            assert(textos(r@) =~= antes.push(l@));
            assert(antes + seq![l@] =~= antes.push(l@));
            assert(antes.push(l@) + linhas_de(t@, j as int) =~= antes.push(l@));
            i = j;
        }
    }
    assert(textos(r@) + linhas_de(t@, i as int) =~= textos(r@));
    r
}

/// Reads the first statement of `linha`: its symbols, then its tree. An
/// error says which of the two could not be had, and where.
pub fn analisar_linha(linha: &str) -> (r: Result<Expr, Erro>)
    ensures
        modelo_da_leitura(r) == leitura(linha@),
{
    match analisar(linha) {
        Err(e) => Err(Erro::Lexico(e)),
        Ok(simbolos) => {
            let mut a = Analisador::new(simbolos);
            match a.analisar_expressao() {
                Some(e) => Ok(e),
                None => Err(Erro::Sintatico(a.posicao_atual())),
            }
        },
    }
}

/// A source text, read line by line.
pub struct Programa {
    linhas: Vec<Linha>,
}

impl View for Programa {
    type V = Seq<LinhaEsp>;

    closed spec fn view(&self) -> Seq<LinhaEsp> {
        Seq::new(self.linhas@.len(), |i: int| self.linhas@[i]@)
    }
}

impl Programa {
    /// Reads every line of `texto`. No line is a reason to stop: one that
    /// cannot be read is kept as a failure.
    pub fn new(texto: &str) -> (p: Programa)
        ensures
            p@ == programa_lido(texto@),
    {
        let origem = separar_linhas(texto);
        let mut linhas: Vec<Linha> = Vec::new();
        let mut i: usize = 0;
        while i < origem.len()
            invariant
                i <= origem@.len(),
                linhas@.len() == i,
                forall|k: int| 0 <= k < i ==> (#[trigger] linhas@[k])@ == linha_lida(origem@[k]@),
            decreases origem@.len() - i,
        {
            let l = origem[i].as_str();
            let lida = if em_branco(l) {
                Linha::EmBranco
            } else {
                match analisar_linha(l) {
                    Ok(e) => Linha::Instrucao(e),
                    Err(e) => Linha::Falha(e),
                }
            };
            linhas.push(lida);
            i = i + 1;
        }
        let p = Programa { linhas };
        assert(p@ =~= programa_lido(texto@));
        p
    }

    /// The number of lines.
    pub fn len(&self) -> (n: usize)
        ensures
            n == self@.len(),
    {
        self.linhas.len()
    }

    /// The line at index `i`, if there is one.
    pub fn linha(&self, i: usize) -> (l: Option<&Linha>)
        ensures
            match l {
                Some(x) => i < self@.len() <= usize::MAX && x@ == self@[i as int],
                None => i >= self@.len(),
            },
    {
        if i < self.linhas.len() {
            Some(&self.linhas[i])
        } else {
            None
        }
    }
}

/// What a run asks of its host after a step.
#[derive(Debug, Clone, PartialEq)]
pub enum Evento {
    /// Nothing: the next step can be taken.
    Continuar,
    /// The value of the numeric literal with this text; the next step takes
    /// it as its answer.
    Converter(String),
    /// The result of this arithmetic operator on these two values, the left
    /// one first; the next step takes it as its answer.
    Calcular(OpBinario, Valor, Valor),
    /// The statement on the line with this number, counted from one, is about
    /// to be evaluated.
    Iniciada(usize),
    /// The line with this number, counted from one, could not be read and
    /// was passed over.
    Falha(usize, Erro),
    /// The line with this number, counted from one, was evaluated and has
    /// this value.
    Avaliada(usize, Valor),
    /// No line is left: the run has this result, and further steps change
    /// nothing.
    Concluido(Valor),
}

/// The model of an `Evento`.
pub enum EventoEsp {
    Continuar,
    Converter(Seq<char>),
    Calcular(OpBinario, Valor, Valor),
    Iniciada(int),
    Falha(int, Erro),
    Avaliada(int, Valor),
    Concluido(Valor),
}

impl View for Evento {
    type V = EventoEsp;

    open spec fn view(&self) -> EventoEsp {
        match self {
            Evento::Continuar => EventoEsp::Continuar,
            Evento::Converter(t) => EventoEsp::Converter(t@),
            Evento::Calcular(op, a, b) => EventoEsp::Calcular(*op, *a, *b),
            Evento::Iniciada(n) => EventoEsp::Iniciada(*n as int),
            Evento::Falha(n, e) => EventoEsp::Falha(*n as int, *e),
            Evento::Avaliada(n, v) => EventoEsp::Avaliada(*n as int, *v),
            Evento::Concluido(v) => EventoEsp::Concluido(*v),
        }
    }
}

/// The model of a run: the lines, the index of the next one, the value of
/// the last line that was evaluated (zero before the first), whether a line
/// is being evaluated, and the machine, which holds the variables.
pub struct ExecucaoEsp {
    pub linhas: Seq<LinhaEsp>,
    pub proxima: int,
    pub resultado: Valor,
    pub ativa: bool,
    pub maquina: EstadoEsp,
}

impl ExecucaoEsp {
    /// The run of `linhas` before its first step, with no variable.
    pub open spec fn inicial(linhas: Seq<LinhaEsp>) -> ExecucaoEsp {
        ExecucaoEsp {
            linhas,
            proxima: 0,
            resultado: Valor::zero(),
            ativa: false,
            maquina: EstadoEsp {
                modo: ModoEsp::Retornar(Valor::zero()),
                pilha: Seq::empty(),
                ambiente: Map::empty(),
                saida: Seq::empty(),
            },
        }
    }

    /// One step of the run, and what it asks of the host. While a line is
    /// being evaluated this is a step of the machine, and the line's value
    /// becomes the result when the machine has nothing left to do. Between
    /// lines the next line is taken: a blank one is passed over, one that
    /// could not be read is reported and passed over with nothing else
    /// changed, a statement is announced and given to the machine. After the
    /// last line the run stays as it is.
    pub open spec fn passo(self, resposta: Valor) -> (ExecucaoEsp, EventoEsp) {
        if self.ativa {
            let m = passo_esp(self.maquina, resposta);
            match acao_esp(m) {
                AcaoEsp::Continuar => (self.com_maquina(m), EventoEsp::Continuar),
                AcaoEsp::Converter(t) => (self.com_maquina(m), EventoEsp::Converter(t)),
                AcaoEsp::Calcular(op, a, b) => (self.com_maquina(m), EventoEsp::Calcular(op, a, b)),
                AcaoEsp::Concluido(v) => (
                    ExecucaoEsp {
                        linhas: self.linhas,
                        proxima: self.proxima,
                        resultado: v,
                        ativa: false,
                        maquina: m,
                    },
                    EventoEsp::Avaliada(self.proxima, v),
                ),
            }
        } else if 0 <= self.proxima < self.linhas.len() {
            let depois = ExecucaoEsp {
                linhas: self.linhas,
                proxima: self.proxima + 1,
                resultado: self.resultado,
                ativa: false,
                maquina: self.maquina,
            };
            match self.linhas[self.proxima] {
                LinhaEsp::EmBranco => (depois, EventoEsp::Continuar),
                LinhaEsp::Falha(e) => (depois, EventoEsp::Falha(self.proxima + 1, e)),
                LinhaEsp::Instrucao(x) => (
                    ExecucaoEsp {
                        linhas: self.linhas,
                        proxima: self.proxima + 1,
                        resultado: self.resultado,
                        ativa: true,
                        maquina: self.maquina.avaliar(x),
                    },
                    EventoEsp::Iniciada(self.proxima + 1),
                ),
            }
        } else {
            (self, EventoEsp::Concluido(self.resultado))
        }
    }

    pub open spec fn com_maquina(self, m: EstadoEsp) -> ExecucaoEsp {
        ExecucaoEsp {
            linhas: self.linhas,
            proxima: self.proxima,
            resultado: self.resultado,
            ativa: self.ativa,
            maquina: m,
        }
    }
}

/// A run of a program, under way.
pub struct Execucao<'a> {
    programa: &'a Programa,
    proxima: usize,
    resultado: Valor,
    ativa: bool,
    maquina: Avaliacao<'a>,
}

impl<'a> View for Execucao<'a> {
    type V = ExecucaoEsp;

    closed spec fn view(&self) -> ExecucaoEsp {
        ExecucaoEsp {
            linhas: self.programa@,
            proxima: self.proxima as int,
            resultado: self.resultado,
            ativa: self.ativa,
            maquina: self.maquina@,
        }
    }
}

impl<'a> Execucao<'a> {
    /// A run of `programa` before its first step, with no variable.
    pub fn new(programa: &'a Programa) -> (e: Execucao<'a>)
        ensures
            e@ == ExecucaoEsp::inicial(programa@),
    {
        Execucao {
            programa,
            proxima: 0,
            resultado: Valor::de_booleano(false),
            ativa: false,
            maquina: Avaliacao::ociosa(Ambiente::new()),
        }
    }

    /// Takes one step and says what the run asks for next. `resposta` is the
    /// answer to what the step before asked for, if it asked for a value; it
    /// is not looked at otherwise.
    pub fn passo(&mut self, resposta: Valor) -> (r: Evento)
        ensures
            (final(self)@, r@) == old(self)@.passo(resposta),
    {
        if self.ativa {
            match self.maquina.passo(resposta) {
                Acao::Continuar => Evento::Continuar,
                Acao::Converter(t) => Evento::Converter(t),
                Acao::Calcular(op, a, b) => Evento::Calcular(op, a, b),
                Acao::Concluido(v) => {
                    self.resultado = v;
                    self.ativa = false;
                    Evento::Avaliada(self.proxima, v)
                },
            }
        } else {
            let i: usize = self.proxima;
            match self.programa.linha(i) {
                None => Evento::Concluido(self.resultado),
                Some(Linha::EmBranco) => {
                    self.proxima = i + 1;
                    Evento::Continuar
                },
                Some(Linha::Falha(e)) => {
                    self.proxima = i + 1;
                    Evento::Falha(i + 1, *e)
                },
                Some(Linha::Instrucao(x)) => {
                    self.proxima = i + 1;
                    self.maquina.recomecar(x);
                    self.ativa = true;
                    Evento::Iniciada(i + 1)
                },
            }
        }
    }

    /// The values that `print` was asked to show so far, the first one first.
    pub fn saida(&self) -> (s: &Vec<Valor>)
        ensures
            s@ == self@.maquina.saida,
    {
        self.maquina.saida()
    }
}

/// A run of `programa` before its first step, with no variable. Its host
/// takes step after step, gives each request its answer, and has the result
/// of the run when `Evento::Concluido` comes.
pub fn executar<'a>(programa: &'a Programa) -> (e: Execucao<'a>)
    ensures
        e@ == ExecucaoEsp::inicial(programa@),
{
    Execucao::new(programa)
}

/// A line that could not be read changes nothing but the place in the text:
/// the step that meets it reports it with its number, and leaves the
/// variables, the printed values and the result as they were.
pub proof fn lema_falha_nada_altera(e: ExecucaoEsp, erro: Erro, resposta: Valor)
    requires
        !e.ativa,
        0 <= e.proxima < e.linhas.len(),
        e.linhas[e.proxima] == LinhaEsp::Falha(erro),
    ensures
        e.passo(resposta).1 == EventoEsp::Falha(e.proxima + 1, erro),
        e.passo(resposta).0.maquina == e.maquina,
        e.passo(resposta).0.resultado == e.resultado,
        e.passo(resposta).0.proxima == e.proxima + 1,
        !e.passo(resposta).0.ativa,
{
}

/// The outcome of the lines from index `i` on, where the outcome of the
/// lines before is `antes`: each statement is evaluated with the variables
/// and printed values that the one before left, and its value becomes the
/// result; the other lines change nothing. `None` where the depth `n` is not
/// enough for one of the statements.
pub open spec fn executa(
    linhas: Seq<LinhaEsp>,
    i: int,
    antes: Resultado,
    h: spec_fn(AcaoEsp) -> Valor,
    n: nat,
) -> Option<Resultado>
    decreases linhas.len() - i,
{
    if i < 0 || i >= linhas.len() {
        Some(antes)
    } else {
        match linhas[i] {
            LinhaEsp::Instrucao(x) => match avalia(x, antes.ambiente, antes.saida, h, n) {
                Some(r) => executa(linhas, i + 1, r, h, n),
                None => None,
            },
            _ => executa(linhas, i + 1, antes, h, n),
        }
    }
}

/// The run of `linhas` between two lines, the next of which has index `i`,
/// where the outcome of the lines before is `r`.
pub open spec fn entre_linhas(linhas: Seq<LinhaEsp>, i: int, r: Resultado) -> ExecucaoEsp {
    ExecucaoEsp {
        linhas,
        proxima: i,
        resultado: r.valor,
        ativa: false,
        maquina: EstadoEsp {
            modo: ModoEsp::Retornar(r.valor),
            pilha: Seq::empty(),
            ambiente: r.ambiente,
            saida: r.saida,
        },
    }
}

/// One step of the run with the host's answer to what its machine asks.
pub open spec fn um_passo_da_execucao(e: ExecucaoEsp, h: spec_fn(AcaoEsp) -> Valor) -> ExecucaoEsp {
    e.passo(h(acao_esp(e.maquina))).0
}

/// The run after `n` such steps.
pub open spec fn corre_execucao(e: ExecucaoEsp, h: spec_fn(AcaoEsp) -> Valor, n: nat) -> ExecucaoEsp
    decreases n,
{
    if n == 0 {
        e
    } else {
        corre_execucao(um_passo_da_execucao(e, h), h, (n - 1) as nat)
    }
}

proof fn lema_corre_execucao_soma(e: ExecucaoEsp, h: spec_fn(AcaoEsp) -> Valor, a: nat, b: nat)
    ensures
        corre_execucao(e, h, a + b) == corre_execucao(corre_execucao(e, h, a), h, b),
    decreases a,
{
    if a > 0 {
        lema_corre_execucao_soma(um_passo_da_execucao(e, h), h, (a - 1) as nat, b);
        assert((a + b - 1) as nat == (a - 1) as nat + b);
    }
}

proof fn lema_linha_ativa(e: ExecucaoEsp, h: spec_fn(AcaoEsp) -> Valor, k: nat) -> (j: nat)
    requires
        e.ativa,
        corre(e.maquina, h, k).concluido(),
    ensures
        corre_execucao(e, h, j) == (ExecucaoEsp {
            linhas: e.linhas,
            proxima: e.proxima,
            resultado: corre(e.maquina, h, k).modo->Retornar_0,
            ativa: false,
            maquina: corre(e.maquina, h, k),
        }),
    decreases k,
{
    let m = um_passo(e.maquina, h);
    let depois = um_passo_da_execucao(e, h);
    assert(corre_execucao(e, h, 1) == depois) by {
        reveal_with_fuel(corre_execucao, 2);
    }
    if m.concluido() {
        if k == 0 {
            assert(m == e.maquina);
        } else {
            lema_maquina_parada(m, h, (k - 1) as nat);
        }
        1
    } else {
        if k == 0 {
            assert(m == e.maquina);
        }
        let j = lema_linha_ativa(depois, h, (k - 1) as nat);
        lema_corre_execucao_soma(e, h, 1, j);
        1 + j
    }
}

/// The run follows the meaning of its lines. Where the lines from index `i`
/// on have the outcome `r` after the outcome `antes` of the lines before,
/// the run that stands between two lines at `i` comes in `k` steps to stand
/// after the last line with the result, the variables and the printed values
/// of `r`.
pub proof fn lema_execucao(
    linhas: Seq<LinhaEsp>,
    i: int,
    antes: Resultado,
    h: spec_fn(AcaoEsp) -> Valor,
    n: nat,
) -> (k: nat)
    requires
        0 <= i <= linhas.len(),
        executa(linhas, i, antes, h, n) is Some,
    ensures
        corre_execucao(entre_linhas(linhas, i, antes), h, k) == entre_linhas(
            linhas,
            linhas.len() as int,
            executa(linhas, i, antes, h, n)->0,
        ),
    decreases linhas.len() - i,
{
    let e = entre_linhas(linhas, i, antes);
    if i >= linhas.len() {
        0
    } else {
        let depois = um_passo_da_execucao(e, h);
        assert(corre_execucao(e, h, 1) == depois) by {
            reveal_with_fuel(corre_execucao, 2);
        }
        match linhas[i] {
            LinhaEsp::Instrucao(x) => {
                let r = avalia(x, antes.ambiente, antes.saida, h, n)->0;
                let k1 = lema_avalia(x, e.maquina, h, n);
                assert(depois.maquina == e.maquina.avaliar(x));
                assert(chegada(e.maquina, r).concluido());
                let j = lema_linha_ativa(depois, h, k1);
                lema_corre_execucao_soma(e, h, 1, j);
                assert(corre_execucao(e, h, 1 + j) == entre_linhas(linhas, i + 1, r));
                let k2 = lema_execucao(linhas, i + 1, r, h, n);
                lema_corre_execucao_soma(e, h, 1 + j, k2);
                1 + j + k2
            },
            _ => {
                assert(depois == entre_linhas(linhas, i + 1, antes));
                let k2 = lema_execucao(linhas, i + 1, antes, h, n);
                lema_corre_execucao_soma(e, h, 1, k2);
                1 + k2
            },
        }
    }
}

/// A whole run gives what its lines mean. Where the lines have the outcome
/// `r` from no variable on, the run that starts on them comes in `k` steps
/// to say, at each further step, that it is over with the value of `r`: the
/// value of the last statement, or zero where there is none.
pub proof fn lema_execucao_inteira(linhas: Seq<LinhaEsp>, h: spec_fn(AcaoEsp) -> Valor, n: nat) -> (k:
    nat)
    requires
        executa(
            linhas,
            0,
            Resultado { valor: Valor::zero(), ambiente: Map::empty(), saida: Seq::empty() },
            h,
            n,
        ) is Some,
    ensures
        ({
            let r = executa(
                linhas,
                0,
                Resultado { valor: Valor::zero(), ambiente: Map::empty(), saida: Seq::empty() },
                h,
                n,
            )->0;
            let fim = corre_execucao(ExecucaoEsp::inicial(linhas), h, k);
            &&& forall|resposta: Valor| #[trigger]
                fim.passo(resposta) == (fim, EventoEsp::Concluido(r.valor))
            &&& fim.maquina.ambiente == r.ambiente
            &&& fim.maquina.saida == r.saida
        }),
{
    let inicio = Resultado { valor: Valor::zero(), ambiente: Map::empty(), saida: Seq::empty() };
    assert(ExecucaoEsp::inicial(linhas) == entre_linhas(linhas, 0, inicio));
    lema_execucao(linhas, 0, inicio, h, n)
}

/// A depth that is enough for every statement stays enough, however much is
/// added.
pub proof fn lema_executa_funda(
    linhas: Seq<LinhaEsp>,
    i: int,
    antes: Resultado,
    h: spec_fn(AcaoEsp) -> Valor,
    n: nat,
    m: nat,
)
    requires
        executa(linhas, i, antes, h, n) is Some,
        n <= m,
    ensures
        executa(linhas, i, antes, h, m) == executa(linhas, i, antes, h, n),
    decreases linhas.len() - i,
{
    if 0 <= i < linhas.len() {
        match linhas[i] {
            LinhaEsp::Instrucao(x) => {
                lema_fundo(x, antes.ambiente, antes.saida, h, n, m);
                let r = avalia(x, antes.ambiente, antes.saida, h, n)->0;
                lema_executa_funda(linhas, i + 1, r, h, n, m);
            },
            _ => lema_executa_funda(linhas, i + 1, antes, h, n, m),
        }
    }
}

proof fn lema_execucao_parada(e: ExecucaoEsp, h: spec_fn(AcaoEsp) -> Valor, n: nat)
    requires
        !e.ativa,
        e.proxima >= e.linhas.len(),
    ensures
        corre_execucao(e, h, n) == e,
    decreases n,
{
    if n > 0 {
        lema_execucao_parada(e, h, (n - 1) as nat);
    }
}

proof fn lema_linha_ativa_volta(e: ExecucaoEsp, h: spec_fn(AcaoEsp) -> Valor, k: nat) -> (t: nat)
    requires
        e.ativa,
        !corre_execucao(e, h, k).ativa,
    ensures
        1 <= t <= k,
        corre(e.maquina, h, t).concluido(),
        corre_execucao(e, h, t) == (ExecucaoEsp {
            linhas: e.linhas,
            proxima: e.proxima,
            resultado: corre(e.maquina, h, t).modo->Retornar_0,
            ativa: false,
            maquina: corre(e.maquina, h, t),
        }),
    decreases k,
{
    let m = um_passo(e.maquina, h);
    let depois = um_passo_da_execucao(e, h);
    assert(corre_execucao(e, h, 1) == depois) by {
        reveal_with_fuel(corre_execucao, 2);
    }
    assert(corre(e.maquina, h, 1) == m) by {
        reveal_with_fuel(corre, 2);
    }
    if m.concluido() {
        1
    } else {
        let t = lema_linha_ativa_volta(depois, h, (k - 1) as nat);
        lema_corre_execucao_soma(e, h, 1, t);
        lema_corre_soma(e.maquina, h, 1, t);
        1 + t
    }
}

/// A run that comes to its end has gone through lines that have a meaning,
/// and holds it. Where the run that stands between two lines at `i`, after
/// the outcome `antes`, stands after the last line after `k` steps, the
/// lines from `i` on have an outcome at the depth `n`, and the run holds its
/// result, its variables and its printed values.
pub proof fn lema_execucao_volta(
    linhas: Seq<LinhaEsp>,
    i: int,
    antes: Resultado,
    h: spec_fn(AcaoEsp) -> Valor,
    k: nat,
) -> (n: nat)
    requires
        0 <= i <= linhas.len(),
        !corre_execucao(entre_linhas(linhas, i, antes), h, k).ativa,
        corre_execucao(entre_linhas(linhas, i, antes), h, k).proxima == linhas.len(),
    ensures
        executa(linhas, i, antes, h, n) is Some,
        corre_execucao(entre_linhas(linhas, i, antes), h, k) == entre_linhas(
            linhas,
            linhas.len() as int,
            executa(linhas, i, antes, h, n)->0,
        ),
    decreases k,
{
    let e = entre_linhas(linhas, i, antes);
    if i >= linhas.len() {
        lema_execucao_parada(e, h, k);
        0
    } else {
        let depois = um_passo_da_execucao(e, h);
        assert(corre_execucao(e, h, k) == corre_execucao(depois, h, (k - 1) as nat));
        match linhas[i] {
            LinhaEsp::Instrucao(x) => {
                let t = lema_linha_ativa_volta(depois, h, (k - 1) as nat);
                assert(depois.maquina == e.maquina.avaliar(x));
                let fim = corre(e.maquina.avaliar(x), h, t);
                let (k1, n1) = lema_volta(x, e.maquina, h, t);
                let r = avalia(x, antes.ambiente, antes.saida, h, n1)->0;
                lema_corre_soma(e.maquina.avaliar(x), h, k1, (t - k1) as nat);
                lema_maquina_parada(chegada(e.maquina, r), h, (t - k1) as nat);
                assert(fim == chegada(e.maquina, r));
                assert(corre_execucao(depois, h, t) == entre_linhas(linhas, i + 1, r));
                lema_corre_execucao_soma(depois, h, t, (k - 1 - t) as nat);
                let n2 = lema_execucao_volta(linhas, i + 1, r, h, (k - 1 - t) as nat);
                let n = maior(n1, n2);
                lema_fundo(x, antes.ambiente, antes.saida, h, n1, n);
                lema_executa_funda(linhas, i + 1, r, h, n2, n);
                n
            },
            _ => {
                assert(depois == entre_linhas(linhas, i + 1, antes));
                lema_execucao_volta(linhas, i + 1, antes, h, (k - 1) as nat)
            },
        }
    }
}

} // verus!
