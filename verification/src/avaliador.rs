//! The evaluator: a machine that walks a tree one step at a time.
//!
//! The machine holds what is left to do as a stack of frames, so that the
//! depth of a tree costs heap and no call stack, and a loop of the language
//! is a run of steps that its caller may end at any time. Arithmetic on
//! values and the reading of numeric literals are not done here: the machine
//! asks for them with an `Acao` and takes the answer with its next step.
//!
//! `passo_esp` is the machine's transition function over models; `passo` is
//! proved to compute it.
use vstd::prelude::*;
use vstd::hash_map::StringHashMap;
use vstd::string::StrSliceExecFns;
use crate::arvore_sintatica_abstrata::{
    lema_modelo_da_chamada, lema_modelo_do_bloco, modelos as arvores, Expr, ExprEsp, OpBinario,
    OpUnario,
};
use crate::valores::Valor;

verus! {

/// The text `true`.
pub open spec fn texto_true() -> Seq<char> {
    seq!['t', 'r', 'u', 'e']
}

/// The text `false`.
pub open spec fn texto_false() -> Seq<char> {
    seq!['f', 'a', 'l', 's', 'e']
}

/// What the identifier `nome` stands for where the variables are `ambiente`:
/// one for `true`, zero for `false`, else the variable's value, else zero.
pub open spec fn valor_de(ambiente: Map<Seq<char>, Valor>, nome: Seq<char>) -> Valor {
    if nome == texto_true() {
        Valor::um()
    } else if nome == texto_false() {
        Valor::zero()
    } else if ambiente.contains_key(nome) {
        ambiente[nome]
    } else {
        Valor::zero()
    }
}

/// Whether the host computes `op`: the five arithmetic operators.
pub open spec fn aritmetico(op: OpBinario) -> bool {
    op == OpBinario::Soma || op == OpBinario::Subtracao || op == OpBinario::Multiplicacao || op
        == OpBinario::Divisao || op == OpBinario::Modulo
}

/// The variables of a run: each name has at most one value.
pub struct Ambiente {
    variaveis: StringHashMap<Valor>,
}

impl View for Ambiente {
    type V = Map<Seq<char>, Valor>;

    closed spec fn view(&self) -> Map<Seq<char>, Valor> {
        self.variaveis@
    }
}

impl Ambiente {
    /// No variable at all.
    pub fn new() -> (a: Ambiente)
        ensures
            a@ == Map::<Seq<char>, Valor>::empty(),
    {
        Ambiente { variaveis: StringHashMap::new() }
    }

    /// The value of the variable `nome`, if it has one.
    pub fn consultar(&self, nome: &str) -> (v: Option<Valor>)
        ensures
            v == if self@.contains_key(nome@) {
                Some(self@[nome@])
            } else {
                None::<Valor>
            },
    {
        match self.variaveis.get(nome) {
            Some(v) => Some(*v),
            None => None,
        }
    }

    /// Gives the variable `nome` the value `valor`, whether it had one or not.
    pub fn definir(&mut self, nome: String, valor: Valor)
        ensures
            final(self)@ == old(self)@.insert(nome@, valor),
    {
        self.variaveis.insert(nome, valor);
    }

    /// What the identifier `nome` stands for.
    pub fn valor_de(&self, nome: &str) -> (v: Valor)
        ensures
            v == valor_de(self@, nome@),
    {
        let n: usize = nome.unicode_len();
        if n == 4 && nome.get_char(0) == 't' && nome.get_char(1) == 'r' && nome.get_char(2) == 'u'
            && nome.get_char(3) == 'e' {
            assert(nome@ =~= texto_true());
            return Valor::de_booleano(true);
        }
        if n == 5 && nome.get_char(0) == 'f' && nome.get_char(1) == 'a' && nome.get_char(2) == 'l'
            && nome.get_char(3) == 's' && nome.get_char(4) == 'e' {
            assert(nome@ =~= texto_false());
            return Valor::de_booleano(false);
        }
        proof {
            if nome@ == texto_true() {
                assert(nome@.len() == 4 && nome@[0] == 't' && nome@[1] == 'r' && nome@[2] == 'u'
                    && nome@[3] == 'e');
            }
            if nome@ == texto_false() {
                assert(nome@.len() == 5 && nome@[0] == 'f' && nome@[1] == 'a' && nome@[2] == 'l'
                    && nome@[3] == 's' && nome@[4] == 'e');
            }
        }
        match self.consultar(nome) {
            Some(v) => v,
            None => Valor::de_booleano(false),
        }
    }
}

/// What the machine asks of its host after a step.
#[derive(Debug, Clone, PartialEq)]
pub enum Acao {
    /// Nothing: the next step can be taken.
    Continuar,
    /// The value of the numeric literal with this text; the next step takes
    /// it as its answer.
    Converter(String),
    /// The result of this arithmetic operator on these two values, the left
    /// one first; the next step takes it as its answer.
    Calcular(OpBinario, Valor, Valor),
    /// Nothing more: the tree has this value, and further steps change
    /// nothing.
    Concluido(Valor),
}

/// The model of an `Acao`.
pub enum AcaoEsp {
    Continuar,
    Converter(Seq<char>),
    Calcular(OpBinario, Valor, Valor),
    Concluido(Valor),
}

impl View for Acao {
    type V = AcaoEsp;

    open spec fn view(&self) -> AcaoEsp {
        match self {
            Acao::Continuar => AcaoEsp::Continuar,
            Acao::Converter(t) => AcaoEsp::Converter(t@),
            Acao::Calcular(op, a, b) => AcaoEsp::Calcular(*op, *a, *b),
            Acao::Concluido(v) => AcaoEsp::Concluido(*v),
        }
    }
}

/// What the machine does next.
#[derive(Clone, Copy)]
pub enum Modo<'a> {
    /// It is about to evaluate this tree.
    Avaliar(&'a Expr),
    /// It hands this value to the frame on top of the stack.
    Retornar(Valor),
    /// It waits for the value of this literal.
    Converter(&'a String),
    /// It waits for the result of this operation.
    Calcular(OpBinario, Valor, Valor),
}

/// The model of a `Modo`.
pub enum ModoEsp {
    Avaliar(ExprEsp),
    Retornar(Valor),
    Converter(Seq<char>),
    Calcular(OpBinario, Valor, Valor),
}

/// What is to be done with a value once it is known.
#[derive(Clone, Copy)]
pub enum Quadro<'a> {
    /// Store it under this name.
    Guardar(&'a String),
    /// Apply this operator to it.
    Unario(OpUnario),
    /// Turn it into one or zero.
    Normalizar,
    /// It is the left operand of this operator, whose right operand is this
    /// tree.
    Direita(OpBinario, &'a Expr),
    /// It is the right operand of this operator, whose left operand had this
    /// value.
    Operar(OpBinario, Valor),
    /// It is the condition of an `if` with these branches.
    Escolher(&'a Expr, &'a Option<Box<Expr>>),
    /// It is the condition of the loop with this condition and this body, of
    /// which the last turn had this value.
    Condicao(&'a Expr, &'a Expr, Valor),
    /// It is the value of a turn of the loop with this condition and this
    /// body.
    Corpo(&'a Expr, &'a Expr),
    /// It is the value of the statement before this index in this block.
    Bloco(&'a Vec<Expr>, usize),
    /// It is the value of the argument before this index in this list.
    Argumentos(&'a Vec<Expr>, usize),
}

/// The model of a `Quadro`.
pub enum QuadroEsp {
    Guardar(Seq<char>),
    Unario(OpUnario),
    Normalizar,
    Direita(OpBinario, ExprEsp),
    Operar(OpBinario, Valor),
    Escolher(ExprEsp, Option<Box<ExprEsp>>),
    Condicao(ExprEsp, ExprEsp, Valor),
    Corpo(ExprEsp, ExprEsp),
    Bloco(Seq<ExprEsp>, int),
    Argumentos(Seq<ExprEsp>, int),
}

impl<'a> Modo<'a> {
    pub open spec fn esp(self) -> ModoEsp {
        match self {
            Modo::Avaliar(e) => ModoEsp::Avaliar(e@),
            Modo::Retornar(v) => ModoEsp::Retornar(v),
            Modo::Converter(t) => ModoEsp::Converter(t@),
            Modo::Calcular(op, a, b) => ModoEsp::Calcular(op, a, b),
        }
    }
}

impl<'a> Quadro<'a> {
    pub open spec fn esp(self) -> QuadroEsp {
        match self {
            Quadro::Guardar(n) => QuadroEsp::Guardar(n@),
            Quadro::Unario(op) => QuadroEsp::Unario(op),
            Quadro::Normalizar => QuadroEsp::Normalizar,
            Quadro::Direita(op, d) => QuadroEsp::Direita(op, d@),
            Quadro::Operar(op, v) => QuadroEsp::Operar(op, v),
            Quadro::Escolher(t, f) => QuadroEsp::Escolher(
                t@,
                match *f {
                    Some(x) => Some(Box::new((*x)@)),
                    None => None,
                },
            ),
            Quadro::Condicao(c, b, v) => QuadroEsp::Condicao(c@, b@, v),
            Quadro::Corpo(c, b) => QuadroEsp::Corpo(c@, b@),
            Quadro::Bloco(s, i) => QuadroEsp::Bloco(arvores(s@), i as int),
            Quadro::Argumentos(s, i) => QuadroEsp::Argumentos(arvores(s@), i as int),
        }
    }
}

/// The models of a stack of frames, the top last.
pub open spec fn quadros(v: Seq<Quadro>) -> Seq<QuadroEsp> {
    Seq::new(v.len(), |i: int| v[i].esp())
}

/// The model of the machine: what it does next, the stack of frames with the
/// top last, the variables, and the values printed so far.
pub struct EstadoEsp {
    pub modo: ModoEsp,
    pub pilha: Seq<QuadroEsp>,
    pub ambiente: Map<Seq<char>, Valor>,
    pub saida: Seq<Valor>,
}

impl EstadoEsp {
    /// The machine about to evaluate `e` with nothing else to do.
    pub open spec fn inicial(e: ExprEsp, ambiente: Map<Seq<char>, Valor>) -> EstadoEsp {
        EstadoEsp { modo: ModoEsp::Avaliar(e), pilha: Seq::empty(), ambiente, saida: Seq::empty() }
    }

    pub open spec fn com_modo(self, modo: ModoEsp) -> EstadoEsp {
        EstadoEsp { modo, pilha: self.pilha, ambiente: self.ambiente, saida: self.saida }
    }

    pub open spec fn avaliar(self, e: ExprEsp) -> EstadoEsp {
        self.com_modo(ModoEsp::Avaliar(e))
    }

    pub open spec fn retornar(self, v: Valor) -> EstadoEsp {
        self.com_modo(ModoEsp::Retornar(v))
    }

    pub open spec fn empilhar(self, q: QuadroEsp) -> EstadoEsp {
        EstadoEsp {
            modo: self.modo,
            pilha: self.pilha.push(q),
            ambiente: self.ambiente,
            saida: self.saida,
        }
    }

    pub open spec fn desempilhar(self) -> EstadoEsp {
        EstadoEsp {
            modo: self.modo,
            pilha: self.pilha.drop_last(),
            ambiente: self.ambiente,
            saida: self.saida,
        }
    }

    pub open spec fn definir(self, nome: Seq<char>, v: Valor) -> EstadoEsp {
        EstadoEsp {
            modo: self.modo,
            pilha: self.pilha,
            ambiente: self.ambiente.insert(nome, v),
            saida: self.saida,
        }
    }

    pub open spec fn emitir(self, v: Valor) -> EstadoEsp {
        EstadoEsp {
            modo: self.modo,
            pilha: self.pilha,
            ambiente: self.ambiente,
            saida: self.saida.push(v),
        }
    }

    /// Whether nothing is left to do.
    pub open spec fn concluido(self) -> bool {
        self.modo is Retornar && self.pilha.len() == 0
    }
}

/// The state in which the machine `e` starts on the tree `x`.
pub open spec fn iniciar_esp(e: EstadoEsp, x: ExprEsp) -> EstadoEsp {
    match x {
        ExprEsp::Numero(t) => e.com_modo(ModoEsp::Converter(t)),
        ExprEsp::String(_) => e.retornar(Valor::zero()),
        ExprEsp::Identificador(n) => e.retornar(valor_de(e.ambiente, n)),
        ExprEsp::Assign(n, v) => e.empilhar(QuadroEsp::Guardar(n)).avaliar(*v),
        ExprEsp::VarDef(n, v) => e.empilhar(QuadroEsp::Guardar(n)).avaliar(*v),
        ExprEsp::Block(s) => if s.len() == 0 {
            e.retornar(Valor::zero())
        } else {
            e.empilhar(QuadroEsp::Bloco(s, 1)).avaliar(s[0])
        },
        ExprEsp::If(c, t, f) => e.empilhar(QuadroEsp::Escolher(*t, f)).avaliar(*c),
        ExprEsp::While(c, b) => e.empilhar(QuadroEsp::Condicao(*c, *b, Valor::zero())).avaliar(*c),
        ExprEsp::GetAttr(_, _) => e.retornar(Valor::zero()),
        ExprEsp::Call(_, a) => if a.len() == 0 {
            e.retornar(Valor::zero())
        } else {
            e.empilhar(QuadroEsp::Argumentos(a, 1)).avaliar(a[0])
        },
        ExprEsp::Unaria(op, x) => e.empilhar(QuadroEsp::Unario(op)).avaliar(*x),
        ExprEsp::Binaria(op, a, b) => e.empilhar(QuadroEsp::Direita(op, *b)).avaliar(*a),
    }
}

/// The state in which the machine `e`, from whose stack the frame `q` was
/// taken, goes on with the value `v`.
pub open spec fn retomar_esp(e: EstadoEsp, q: QuadroEsp, v: Valor) -> EstadoEsp {
    match q {
        QuadroEsp::Guardar(n) => e.definir(n, v).retornar(v),
        QuadroEsp::Unario(op) => match op {
            OpUnario::Negacao => e.retornar(Valor::de_bool(!v.verdadeiro())),
            OpUnario::NegacaoAritmetica => e.retornar(v.oposto()),
            OpUnario::Print => e.emitir(v).retornar(v),
        },
        QuadroEsp::Normalizar => e.retornar(Valor::de_bool(v.verdadeiro())),
        QuadroEsp::Direita(op, d) => match op {
            OpBinario::And => if v.verdadeiro() {
                e.avaliar(d)
            } else {
                e.retornar(Valor::zero())
            },
            OpBinario::Or => if v.verdadeiro() {
                e.retornar(Valor::um())
            } else {
                e.empilhar(QuadroEsp::Normalizar).avaliar(d)
            },
            _ => e.empilhar(QuadroEsp::Operar(op, v)).avaliar(d),
        },
        QuadroEsp::Operar(op, l) => if aritmetico(op) {
            e.com_modo(ModoEsp::Calcular(op, l, v))
        } else {
            e.retornar(Valor::de_bool(Valor::compara(op, l, v)))
        },
        QuadroEsp::Escolher(t, f) => if v.verdadeiro() {
            e.avaliar(t)
        } else {
            match f {
                Some(x) => e.avaliar(*x),
                None => e.retornar(Valor::zero()),
            }
        },
        QuadroEsp::Condicao(c, b, ultimo) => if v.verdadeiro() {
            e.empilhar(QuadroEsp::Corpo(c, b)).avaliar(b)
        } else {
            e.retornar(ultimo)
        },
        QuadroEsp::Corpo(c, b) => e.empilhar(QuadroEsp::Condicao(c, b, v)).avaliar(c),
        QuadroEsp::Bloco(s, i) => if 0 <= i < s.len() {
            e.empilhar(QuadroEsp::Bloco(s, i + 1)).avaliar(s[i])
        } else {
            e.retornar(v)
        },
        QuadroEsp::Argumentos(s, i) => if 0 <= i < s.len() {
            e.empilhar(QuadroEsp::Argumentos(s, i + 1)).avaliar(s[i])
        } else {
            e.retornar(Valor::zero())
        },
    }
}

/// One step of the machine. Where it waited for an answer, `resposta` is the
/// value to go on with; elsewhere `resposta` is not looked at. A machine with
/// nothing left to do stays as it is.
pub open spec fn passo_esp(e: EstadoEsp, resposta: Valor) -> EstadoEsp {
    match e.modo {
        ModoEsp::Converter(_) => e.retornar(resposta),
        ModoEsp::Calcular(_, _, _) => e.retornar(resposta),
        ModoEsp::Avaliar(x) => iniciar_esp(e, x),
        ModoEsp::Retornar(v) => if e.pilha.len() == 0 {
            e
        } else {
            retomar_esp(e.desempilhar(), e.pilha.last(), v)
        },
    }
}

/// What the machine asks of its host in the state `e`.
pub open spec fn acao_esp(e: EstadoEsp) -> AcaoEsp {
    match e.modo {
        ModoEsp::Converter(t) => AcaoEsp::Converter(t),
        ModoEsp::Calcular(op, a, b) => AcaoEsp::Calcular(op, a, b),
        ModoEsp::Avaliar(_) => AcaoEsp::Continuar,
        ModoEsp::Retornar(v) => if e.pilha.len() == 0 {
            AcaoEsp::Concluido(v)
        } else {
            AcaoEsp::Continuar
        },
    }
}

/// The evaluation of one tree, under way.
pub struct Avaliacao<'a> {
    modo: Modo<'a>,
    pilha: Vec<Quadro<'a>>,
    ambiente: Ambiente,
    saida: Vec<Valor>,
}

impl<'a> View for Avaliacao<'a> {
    type V = EstadoEsp;

    closed spec fn view(&self) -> EstadoEsp {
        EstadoEsp {
            modo: self.modo.esp(),
            pilha: quadros(self.pilha@),
            ambiente: self.ambiente@,
            saida: self.saida@,
        }
    }
}

impl Expr {
    /// A machine about to evaluate this tree with the variables `ctx`. The
    /// variables are had back, as the evaluation left them, from
    /// `Avaliacao::concluir`.
    pub fn avaliar_com_contexto<'a>(&'a self, ctx: Ambiente) -> (m: Avaliacao<'a>)
        ensures
            m@ == EstadoEsp::inicial(self@, ctx@),
    {
        Avaliacao::new(self, ctx)
    }

    /// A machine about to evaluate this tree with no variable.
    pub fn avaliar<'a>(&'a self) -> (m: Avaliacao<'a>)
        ensures
            m@ == EstadoEsp::inicial(self@, Map::empty()),
    {
        Avaliacao::new(self, Ambiente::new())
    }
}

fn aritmetico_exec(op: OpBinario) -> (r: bool)
    ensures
        r == aritmetico(op),
{
    match op {
        OpBinario::Soma => true,
        OpBinario::Subtracao => true,
        OpBinario::Multiplicacao => true,
        OpBinario::Divisao => true,
        OpBinario::Modulo => true,
        _ => false,
    }
}

impl<'a> Avaliacao<'a> {
    /// A machine about to evaluate `e` with the variables `ambiente`.
    pub fn new(e: &'a Expr, ambiente: Ambiente) -> (m: Avaliacao<'a>)
        ensures
            m@ == EstadoEsp::inicial(e@, ambiente@),
    {
        let m = Avaliacao { modo: Modo::Avaliar(e), pilha: Vec::new(), ambiente, saida: Vec::new() };
        assert(quadros(m.pilha@) =~= Seq::empty());
        m
    }

    /// A machine with nothing to do, which holds the variables `ambiente`.
    pub fn ociosa(ambiente: Ambiente) -> (m: Avaliacao<'a>)
        ensures
            m@ == (EstadoEsp {
                modo: ModoEsp::Retornar(Valor::zero()),
                pilha: Seq::empty(),
                ambiente: ambiente@,
                saida: Seq::empty(),
            }),
    {
        let m = Avaliacao {
            modo: Modo::Retornar(Valor::de_booleano(false)),
            pilha: Vec::new(),
            ambiente,
            saida: Vec::new(),
        };
        assert(quadros(m.pilha@) =~= Seq::empty());
        m
    }

    /// Sets the machine to evaluate `e` next, with the variables and the
    /// printed values that it holds. On a machine with nothing left to do this
    /// starts the evaluation of `e`.
    pub fn recomecar(&mut self, e: &'a Expr)
        ensures
            final(self)@ == old(self)@.avaliar(e@),
    {
        self.modo = Modo::Avaliar(e);
    }

    fn empilhar(&mut self, q: Quadro<'a>)
        ensures
            final(self)@ == old(self)@.empilhar(q.esp()),
    {
        self.pilha.push(q);
        assert(quadros(self.pilha@) =~= quadros(old(self).pilha@).push(q.esp()));
    }

    fn avaliar(&mut self, e: &'a Expr)
        ensures
            final(self)@ == old(self)@.avaliar(e@),
    {
        self.modo = Modo::Avaliar(e);
    }

    fn retornar(&mut self, v: Valor)
        ensures
            final(self)@ == old(self)@.retornar(v),
    {
        self.modo = Modo::Retornar(v);
    }

    fn iniciar_binaria(&mut self, op: OpBinario, a: &'a Expr, b: &'a Expr)
        ensures
            final(self)@ == old(self)@.empilhar(QuadroEsp::Direita(op, b@)).avaliar(a@),
    {
        self.empilhar(Quadro::Direita(op, b));
        self.avaliar(a);
    }

    fn iniciar_unaria(&mut self, op: OpUnario, x: &'a Expr)
        ensures
            final(self)@ == old(self)@.empilhar(QuadroEsp::Unario(op)).avaliar(x@),
    {
        self.empilhar(Quadro::Unario(op));
        self.avaliar(x);
    }

    fn iniciar(&mut self, x: &'a Expr)
        ensures
            final(self)@ == iniciar_esp(old(self)@, x@),
    {
        match x {
            Expr::Numero(t) => {
                self.modo = Modo::Converter(t);
            },
            Expr::String(_) => {
                self.retornar(Valor::de_booleano(false));
            },
            Expr::Identificador(n) => {
                let v = self.ambiente.valor_de(n.as_str());
                self.retornar(v);
            },
            Expr::Assign(n, v) => {
                self.empilhar(Quadro::Guardar(n));
                self.avaliar(v);
            },
            Expr::VarDef(n, v) => {
                self.empilhar(Quadro::Guardar(n));
                self.avaliar(v);
            },
            Expr::Block(s) => {
                proof {
                    lema_modelo_do_bloco(*s);
                }
                if s.len() == 0 {
                    self.retornar(Valor::de_booleano(false));
                } else {
                    self.empilhar(Quadro::Bloco(s, 1));
                    self.avaliar(&s[0]);
                }
            },
            Expr::If(c, t, f) => {
                self.empilhar(Quadro::Escolher(t, f));
                self.avaliar(c);
            },
            Expr::While(c, b) => {
                self.empilhar(Quadro::Condicao(c, b, Valor::de_booleano(false)));
                self.avaliar(c);
            },
            Expr::GetAttr(_, _) => {
                self.retornar(Valor::de_booleano(false));
            },
            Expr::Call(f, a) => {
                proof {
                    lema_modelo_da_chamada(**f, *a);
                }
                if a.len() == 0 {
                    self.retornar(Valor::de_booleano(false));
                } else {
                    self.empilhar(Quadro::Argumentos(a, 1));
                    self.avaliar(&a[0]);
                }
            },
            Expr::Negacao(e) => self.iniciar_unaria(OpUnario::Negacao, e),
            Expr::NegacaoAritmetica(e) => self.iniciar_unaria(OpUnario::NegacaoAritmetica, e),
            Expr::Print(e) => self.iniciar_unaria(OpUnario::Print, e),
            Expr::And(a, b) => self.iniciar_binaria(OpBinario::And, a, b),
            Expr::Or(a, b) => self.iniciar_binaria(OpBinario::Or, a, b),
            Expr::Soma(a, b) => self.iniciar_binaria(OpBinario::Soma, a, b),
            Expr::Subtracao(a, b) => self.iniciar_binaria(OpBinario::Subtracao, a, b),
            Expr::Multiplicacao(a, b) => self.iniciar_binaria(OpBinario::Multiplicacao, a, b),
            Expr::Divisao(a, b) => self.iniciar_binaria(OpBinario::Divisao, a, b),
            Expr::Modulo(a, b) => self.iniciar_binaria(OpBinario::Modulo, a, b),
            Expr::Maior(a, b) => self.iniciar_binaria(OpBinario::Maior, a, b),
            Expr::Menor(a, b) => self.iniciar_binaria(OpBinario::Menor, a, b),
            Expr::MaiorIgual(a, b) => self.iniciar_binaria(OpBinario::MaiorIgual, a, b),
            Expr::MenorIgual(a, b) => self.iniciar_binaria(OpBinario::MenorIgual, a, b),
            Expr::IgualIgual(a, b) => self.iniciar_binaria(OpBinario::IgualIgual, a, b),
            Expr::Diferente(a, b) => self.iniciar_binaria(OpBinario::Diferente, a, b),
        }
    }

    fn retomar(&mut self, q: Quadro<'a>, v: Valor)
        ensures
            final(self)@ == retomar_esp(old(self)@, q.esp(), v),
    {
        match q {
            Quadro::Guardar(n) => {
                self.ambiente.definir(n.clone(), v);
                self.retornar(v);
            },
            Quadro::Unario(op) => {
                match op {
                    OpUnario::Negacao => {
                        self.retornar(Valor::de_booleano(!v.eh_verdadeiro()));
                    },
                    OpUnario::NegacaoAritmetica => {
                        self.retornar(v.negar());
                    },
                    OpUnario::Print => {
                        self.saida.push(v);
                        self.retornar(v);
                    },
                }
            },
            Quadro::Normalizar => {
                self.retornar(Valor::de_booleano(v.eh_verdadeiro()));
            },
            Quadro::Direita(op, d) => {
                match op {
                    OpBinario::And => {
                        if v.eh_verdadeiro() {
                            self.avaliar(d);
                        } else {
                            self.retornar(Valor::de_booleano(false));
                        }
                    },
                    OpBinario::Or => {
                        if v.eh_verdadeiro() {
                            self.retornar(Valor::de_booleano(true));
                        } else {
                            self.empilhar(Quadro::Normalizar);
                            self.avaliar(d);
                        }
                    },
                    _ => {
                        self.empilhar(Quadro::Operar(op, v));
                        self.avaliar(d);
                    },
                }
            },
            Quadro::Operar(op, l) => {
                if aritmetico_exec(op) {
                    self.modo = Modo::Calcular(op, l, v);
                } else {
                    self.retornar(Valor::de_booleano(Valor::comparar(op, l, v)));
                }
            },
            Quadro::Escolher(t, f) => {
                if v.eh_verdadeiro() {
                    self.avaliar(t);
                } else {
                    match f {
                        Some(x) => {
                            self.avaliar(x);
                        },
                        None => {
                            self.retornar(Valor::de_booleano(false));
                        },
                    }
                }
            },
            Quadro::Condicao(c, b, ultimo) => {
                if v.eh_verdadeiro() {
                    self.empilhar(Quadro::Corpo(c, b));
                    self.avaliar(b);
                } else {
                    self.retornar(ultimo);
                }
            },
            Quadro::Corpo(c, b) => {
                self.empilhar(Quadro::Condicao(c, b, v));
                self.avaliar(c);
            },
            Quadro::Bloco(s, i) => {
                if i < s.len() {
                    self.empilhar(Quadro::Bloco(s, i + 1));
                    self.avaliar(&s[i]);
                } else {
                    self.retornar(v);
                }
            },
            Quadro::Argumentos(s, i) => {
                if i < s.len() {
                    self.empilhar(Quadro::Argumentos(s, i + 1));
                    self.avaliar(&s[i]);
                } else {
                    self.retornar(Valor::de_booleano(false));
                }
            },
        }
    }

    /// What the machine asks of its host as it stands.
    pub fn acao(&self) -> (a: Acao)
        ensures
            a@ == acao_esp(self@),
    {
        match self.modo {
            Modo::Converter(t) => Acao::Converter(t.clone()),
            Modo::Calcular(op, a, b) => Acao::Calcular(op, a, b),
            Modo::Avaliar(_) => Acao::Continuar,
            Modo::Retornar(v) => if self.pilha.len() == 0 {
                Acao::Concluido(v)
            } else {
                Acao::Continuar
            },
        }
    }

    /// Takes one step and says what the machine asks for next. `resposta` is
    /// the answer to what the step before asked for, if it asked for a value;
    /// it is not looked at otherwise.
    pub fn passo(&mut self, resposta: Valor) -> (a: Acao)
        ensures
            final(self)@ == passo_esp(old(self)@, resposta),
            a@ == acao_esp(final(self)@),
    {
        match self.modo {
            Modo::Converter(_) => {
                self.retornar(resposta);
            },
            Modo::Calcular(_, _, _) => {
                self.retornar(resposta);
            },
            Modo::Avaliar(x) => {
                self.iniciar(x);
            },
            Modo::Retornar(v) => {
                let ghost antes = self.pilha@;
                match self.pilha.pop() {
                    None => {},
                    Some(q) => {
                        assert(quadros(self.pilha@) =~= quadros(antes).drop_last());
                        assert(quadros(antes).last() == q.esp());
                        self.retomar(q, v);
                    },
                }
            },
        }
        self.acao()
    }

    /// The values that `print` was asked to show so far, the first one first.
    pub fn saida(&self) -> (s: &Vec<Valor>)
        ensures
            s@ == self@.saida,
    {
        &self.saida
    }

    /// Ends the evaluation and hands back the variables as they are now, with
    /// the value of the tree if the machine has nothing left to do.
    pub fn concluir(self) -> (r: (Option<Valor>, Ambiente))
        ensures
            r.1@ == self@.ambiente,
            r.0 == match self@.modo {
                ModoEsp::Retornar(v) if self@.pilha.len() == 0 => Some(v),
                _ => None::<Valor>,
            },
    {
        let valor = match self.modo {
            Modo::Retornar(v) => if self.pilha.len() == 0 {
                Some(v)
            } else {
                None
            },
            _ => None,
        };
        (valor, self.ambiente)
    }
}

} // verus!
