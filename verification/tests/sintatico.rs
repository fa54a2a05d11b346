use mini_lox_rust::analisador_lexico::{analisar, Simbolo};
use mini_lox_rust::analisador_sintatico::Analisador;
use mini_lox_rust::arvore_sintatica_abstrata::{Expr, OpBinario};

fn ler(fonte: &str) -> (Option<Expr>, usize) {
    let mut analisador = Analisador::new(analisar(fonte).unwrap());
    let arvore = analisador.analisar_expressao();
    (arvore, analisador.posicao_atual())
}

fn arvore(fonte: &str) -> Expr {
    ler(fonte).0.unwrap()
}

fn falha(fonte: &str) -> usize {
    let (arvore, posicao) = ler(fonte);
    assert_eq!(arvore, None);
    posicao
}

fn num(texto: &str) -> Expr {
    Expr::Numero(texto.to_string())
}

fn id(texto: &str) -> Expr {
    Expr::Identificador(texto.to_string())
}

fn cx(e: Expr) -> Box<Expr> {
    Box::new(e)
}

#[test]
fn produto_antes_da_soma() {
    assert_eq!(
        arvore("1 + 2 * 3"),
        Expr::Soma(cx(num("1")), cx(Expr::Multiplicacao(cx(num("2")), cx(num("3")))))
    );
    assert_eq!(
        arvore("1 * 2 + 3"),
        Expr::Soma(cx(Expr::Multiplicacao(cx(num("1")), cx(num("2")))), cx(num("3")))
    );
    assert_eq!(
        arvore("5 * (2 + 3)"),
        Expr::Multiplicacao(cx(num("5")), cx(Expr::Soma(cx(num("2")), cx(num("3")))))
    );
    assert_eq!(
        arvore("7 % 3 / 2"),
        Expr::Divisao(cx(Expr::Modulo(cx(num("7")), cx(num("3")))), cx(num("2")))
    );
}

#[test]
fn agrupamento_pela_esquerda() {
    assert_eq!(
        arvore("1 - 2 - 3"),
        Expr::Subtracao(cx(Expr::Subtracao(cx(num("1")), cx(num("2")))), cx(num("3")))
    );
    assert_eq!(
        arvore("10 / 2 - 1"),
        Expr::Subtracao(cx(Expr::Divisao(cx(num("10")), cx(num("2")))), cx(num("1")))
    );
    assert_eq!(
        arvore("1 < 2 == 3"),
        Expr::IgualIgual(cx(Expr::Menor(cx(num("1")), cx(num("2")))), cx(num("3")))
    );
    assert_eq!(
        arvore("a or b or c"),
        Expr::Or(cx(Expr::Or(cx(id("a")), cx(id("b")))), cx(id("c")))
    );
}

#[test]
fn niveis_de_precedencia() {
    assert_eq!(
        arvore("1 + 2 < 3 * 4"),
        Expr::Menor(
            cx(Expr::Soma(cx(num("1")), cx(num("2")))),
            cx(Expr::Multiplicacao(cx(num("3")), cx(num("4"))))
        )
    );
    assert_eq!(
        arvore("a or b and c"),
        Expr::Or(cx(id("a")), cx(Expr::And(cx(id("b")), cx(id("c")))))
    );
    assert_eq!(
        arvore("a and b >= c"),
        Expr::And(cx(id("a")), cx(Expr::MaiorIgual(cx(id("b")), cx(id("c")))))
    );
    assert_eq!(
        arvore("a != b > c"),
        Expr::Maior(cx(Expr::Diferente(cx(id("a")), cx(id("b")))), cx(id("c")))
    );
    assert_eq!(
        arvore("a <= b"),
        Expr::MenorIgual(cx(id("a")), cx(id("b")))
    );
}

#[test]
fn no_binario_de_cada_operador() {
    let a = || id("a");
    let b = || id("b");
    assert_eq!(Expr::binaria(OpBinario::And, a(), b()), Expr::And(cx(a()), cx(b())));
    assert_eq!(Expr::binaria(OpBinario::Or, a(), b()), Expr::Or(cx(a()), cx(b())));
    assert_eq!(Expr::binaria(OpBinario::Soma, a(), b()), Expr::Soma(cx(a()), cx(b())));
    assert_eq!(Expr::binaria(OpBinario::Subtracao, a(), b()), Expr::Subtracao(cx(a()), cx(b())));
    assert_eq!(
        Expr::binaria(OpBinario::Multiplicacao, a(), b()),
        Expr::Multiplicacao(cx(a()), cx(b()))
    );
    assert_eq!(Expr::binaria(OpBinario::Divisao, a(), b()), Expr::Divisao(cx(a()), cx(b())));
    assert_eq!(Expr::binaria(OpBinario::Modulo, a(), b()), Expr::Modulo(cx(a()), cx(b())));
    assert_eq!(Expr::binaria(OpBinario::Maior, a(), b()), Expr::Maior(cx(a()), cx(b())));
    assert_eq!(Expr::binaria(OpBinario::Menor, a(), b()), Expr::Menor(cx(a()), cx(b())));
    assert_eq!(Expr::binaria(OpBinario::MaiorIgual, a(), b()), Expr::MaiorIgual(cx(a()), cx(b())));
    assert_eq!(Expr::binaria(OpBinario::MenorIgual, a(), b()), Expr::MenorIgual(cx(a()), cx(b())));
    assert_eq!(Expr::binaria(OpBinario::IgualIgual, a(), b()), Expr::IgualIgual(cx(a()), cx(b())));
    assert_eq!(Expr::binaria(OpBinario::Diferente, a(), b()), Expr::Diferente(cx(a()), cx(b())));
}

#[test]
fn atribuicao_agrupa_pela_direita() {
    assert_eq!(
        arvore("a = b = 3"),
        Expr::Assign("a".to_string(), cx(Expr::Assign("b".to_string(), cx(num("3")))))
    );
    assert_eq!(
        arvore("x = 1 + 2"),
        Expr::Assign("x".to_string(), cx(Expr::Soma(cx(num("1")), cx(num("2")))))
    );
}

#[test]
fn atribuicao_a_quem_nao_e_identificador() {
    assert_eq!(falha("1 = 2"), 2);
    assert_eq!(falha("a + b = 2"), 4);
    assert_eq!(falha("f() = 2"), 4);
    assert_eq!(
        arvore("(a) = 2"),
        Expr::Assign("a".to_string(), cx(num("2")))
    );
    assert_eq!(falha("a = "), 2);
}

#[test]
fn parenteses_sem_par() {
    assert_eq!(falha("(1 + 2"), 4);
    assert_eq!(falha(")"), 0);
    assert_eq!(falha("1 + "), 2);
    assert_eq!(falha("1 + * 2"), 2);
    assert_eq!(falha(""), 0);
}

#[test]
fn o_que_sobra_na_linha_nao_e_lido() {
    assert_eq!(ler("1 2"), (Some(num("1")), 1));
    assert_eq!(ler("1 + 2)"), (Some(Expr::Soma(cx(num("1")), cx(num("2")))), 3));
    assert_eq!(
        ler("{ var a = 1; } a"),
        (Some(Expr::Block(vec![Expr::VarDef("a".to_string(), cx(num("1")))])), 7)
    );
}

#[test]
fn arvores_de_blocos() {
    assert_eq!(
        arvore("{ var a = 1; a }"),
        Expr::Block(vec![Expr::VarDef("a".to_string(), cx(num("1"))), id("a")])
    );
    assert_eq!(arvore("{}"), Expr::Block(vec![]));
    assert_eq!(arvore("{ ; ; }"), Expr::Block(vec![]));
    assert_eq!(arvore("{ 1 2 }"), Expr::Block(vec![num("1"), num("2")]));
    assert_eq!(
        arvore("{ { 1 } 2; }"),
        Expr::Block(vec![Expr::Block(vec![num("1")]), num("2")])
    );
}

#[test]
fn bloco_sem_fecho() {
    assert_eq!(falha("{ 1"), 2);
    assert_eq!(falha("{ 1; "), 3);
    assert_eq!(falha("{"), 1);
    let mut sem_fim = Analisador::new(vec![Simbolo::AbreChaves, Simbolo::Numero("1".to_string())]);
    assert_eq!(sem_fim.analisar_expressao(), None);
    assert_eq!(sem_fim.posicao_atual(), 2);
}

#[test]
fn sequencia_sem_simbolos() {
    let mut vazio = Analisador::new(vec![]);
    assert_eq!(vazio.analisar_expressao(), None);
    assert_eq!(vazio.posicao_atual(), 0);
    let mut so_um = Analisador::new(vec![Simbolo::Numero("7".to_string())]);
    assert_eq!(so_um.analisar_expressao(), Some(num("7")));
    assert_eq!(so_um.posicao_atual(), 1);
    assert_eq!(so_um.analisar_expressao(), None);
    assert_eq!(so_um.posicao_atual(), 1);
}

#[test]
fn varias_instrucoes_uma_apos_outra() {
    let mut analisador = Analisador::new(analisar("1 + 2 x = 3 y").unwrap());
    assert_eq!(
        analisador.analisar_expressao(),
        Some(Expr::Soma(cx(num("1")), cx(num("2"))))
    );
    assert_eq!(analisador.posicao_atual(), 3);
    assert_eq!(
        analisador.analisar_expressao(),
        Some(Expr::Assign("x".to_string(), cx(num("3"))))
    );
    assert_eq!(analisador.posicao_atual(), 6);
    assert_eq!(analisador.analisar_expressao(), Some(id("y")));
    assert_eq!(analisador.posicao_atual(), 7);
    assert_eq!(analisador.analisar_expressao(), None);
    assert_eq!(analisador.posicao_atual(), 7);
}

#[test]
fn condicional() {
    assert_eq!(
        arvore("if (1 < 2) 3 else 4"),
        Expr::If(
            cx(Expr::Menor(cx(num("1")), cx(num("2")))),
            cx(num("3")),
            Some(cx(num("4")))
        )
    );
    assert_eq!(
        arvore("if (false) 10"),
        Expr::If(cx(id("false")), cx(num("10")), None)
    );
    assert_eq!(
        arvore("if (a) if (b) 1 else 2"),
        Expr::If(
            cx(id("a")),
            cx(Expr::If(cx(id("b")), cx(num("1")), Some(cx(num("2"))))),
            None
        )
    );
    assert_eq!(
        arvore("if (a) { 1 } else { 2 }"),
        Expr::If(
            cx(id("a")),
            cx(Expr::Block(vec![num("1")])),
            Some(cx(Expr::Block(vec![num("2")])))
        )
    );
    assert_eq!(
        arvore("if (a = 1) var b = 2"),
        Expr::If(
            cx(Expr::Assign("a".to_string(), cx(num("1")))),
            cx(Expr::VarDef("b".to_string(), cx(num("2")))),
            None
        )
    );
}

#[test]
fn condicional_mal_formada() {
    assert_eq!(falha("if x"), 1);
    assert_eq!(falha("if (x 1"), 3);
    assert_eq!(falha("if (x)"), 4);
    assert_eq!(falha("if (x) 1 else"), 6);
    assert_eq!(falha("if ()"), 2);
    assert_eq!(falha("else 1"), 0);
}

#[test]
fn repeticao() {
    assert_eq!(
        arvore("while (i < 5) { i = i + 1; }"),
        Expr::While(
            cx(Expr::Menor(cx(id("i")), cx(num("5")))),
            cx(Expr::Block(vec![Expr::Assign(
                "i".to_string(),
                cx(Expr::Soma(cx(id("i")), cx(num("1"))))
            )]))
        )
    );
    assert_eq!(
        arvore("while (a) while (b) c"),
        Expr::While(cx(id("a")), cx(Expr::While(cx(id("b")), cx(id("c")))))
    );
    assert_eq!(falha("while i"), 1);
    assert_eq!(falha("while (i"), 3);
    assert_eq!(falha("while (i)"), 4);
}

#[test]
fn instrucoes_dentro_de_blocos() {
    assert_eq!(
        arvore("{ if (a) b }"),
        Expr::Block(vec![Expr::If(cx(id("a")), cx(id("b")), None)])
    );
    assert_eq!(
        arvore("{ while (a) b; c }"),
        Expr::Block(vec![Expr::While(cx(id("a")), cx(id("b"))), id("c")])
    );
}

#[test]
fn declaracao_de_variavel() {
    assert_eq!(arvore("var x = 2"), Expr::VarDef("x".to_string(), cx(num("2"))));
    assert_eq!(arvore("var x"), Expr::VarDef("x".to_string(), cx(num("0"))));
    assert_eq!(
        arvore("var d = c + 2"),
        Expr::VarDef("d".to_string(), cx(Expr::Soma(cx(id("c")), cx(num("2")))))
    );
    assert_eq!(
        arvore("var a = b = 1"),
        Expr::VarDef("a".to_string(), cx(Expr::Assign("b".to_string(), cx(num("1")))))
    );
    assert_eq!(falha("var 1"), 1);
    assert_eq!(falha("var"), 1);
    assert_eq!(falha("var x ="), 3);
    assert_eq!(falha("var if"), 1);
}

#[test]
fn arvores_de_operadores_unarios() {
    assert_eq!(arvore("-5"), Expr::NegacaoAritmetica(cx(num("5"))));
    assert_eq!(arvore("!true"), Expr::Negacao(cx(id("true"))));
    assert_eq!(arvore("!!true"), Expr::Negacao(cx(Expr::Negacao(cx(id("true"))))));
    assert_eq!(
        arvore("- - 1"),
        Expr::NegacaoAritmetica(cx(Expr::NegacaoAritmetica(cx(num("1")))))
    );
    assert_eq!(
        arvore("-a * b"),
        Expr::Multiplicacao(cx(Expr::NegacaoAritmetica(cx(id("a")))), cx(id("b")))
    );
    assert_eq!(
        arvore("a - -b"),
        Expr::Subtracao(cx(id("a")), cx(Expr::NegacaoAritmetica(cx(id("b")))))
    );
    assert_eq!(falha("!"), 1);
    assert_eq!(falha("-"), 1);
}

#[test]
fn chamadas() {
    assert_eq!(arvore("f()"), Expr::Call(cx(id("f")), vec![]));
    assert_eq!(arvore("f(1, 2)"), Expr::Call(cx(id("f")), vec![num("1"), num("2")]));
    assert_eq!(
        arvore("f(1)(2)"),
        Expr::Call(cx(Expr::Call(cx(id("f")), vec![num("1")])), vec![num("2")])
    );
    assert_eq!(
        arvore("f(x = 3, { 1 })"),
        Expr::Call(
            cx(id("f")),
            vec![
                Expr::Assign("x".to_string(), cx(num("3"))),
                Expr::Block(vec![num("1")])
            ]
        )
    );
    assert_eq!(
        arvore("-f(x)"),
        Expr::Call(cx(Expr::NegacaoAritmetica(cx(id("f")))), vec![id("x")])
    );
    assert_eq!(
        arvore("f(g(1))"),
        Expr::Call(cx(id("f")), vec![Expr::Call(cx(id("g")), vec![num("1")])])
    );
}

#[test]
fn chamadas_mal_formadas() {
    assert_eq!(falha("f(1 +)"), 4);
    assert_eq!(falha("f(1 2)"), 3);
    assert_eq!(falha("f(1,"), 4);
    assert_eq!(falha("f(1, )"), 4);
    assert_eq!(falha("f("), 2);
    assert_eq!(falha("f(,)"), 2);
    let mut sem_fim = Analisador::new(vec![
        Simbolo::Identificador("f".to_string()),
        Simbolo::AbreParenteses,
    ]);
    assert_eq!(sem_fim.analisar_expressao(), None);
    assert_eq!(sem_fim.posicao_atual(), 2);
}

#[test]
fn atributos() {
    assert_eq!(
        arvore("a.b.c"),
        Expr::GetAttr(cx(Expr::GetAttr(cx(id("a")), "b".to_string())), "c".to_string())
    );
    assert_eq!(
        arvore("f(1).x"),
        Expr::GetAttr(cx(Expr::Call(cx(id("f")), vec![num("1")])), "x".to_string())
    );
    assert_eq!(
        arvore("a.b * c.d"),
        Expr::Multiplicacao(
            cx(Expr::GetAttr(cx(id("a")), "b".to_string())),
            cx(Expr::GetAttr(cx(id("c")), "d".to_string()))
        )
    );
    assert_eq!(
        ler("a.b(1)"),
        (Some(Expr::GetAttr(cx(id("a")), "b".to_string())), 3)
    );
    assert_eq!(falha("a.1"), 2);
    assert_eq!(falha("a."), 2);
    assert_eq!(falha("a.if"), 2);
}

#[test]
fn primarios() {
    assert_eq!(arvore("42"), num("42"));
    assert_eq!(arvore("2.72"), num("2.72"));
    assert_eq!(arvore("\"oi\""), Expr::String("oi".to_string()));
    assert_eq!(arvore("x"), id("x"));
    assert_eq!(arvore("((x))"), id("x"));
    assert_eq!(arvore("(var x = 1)"), Expr::VarDef("x".to_string(), cx(num("1"))));
    assert_eq!(arvore("({ 1 })"), Expr::Block(vec![num("1")]));
    assert_eq!(
        arvore("(if (a) 1 else 2) + 3"),
        Expr::Soma(
            cx(Expr::If(cx(id("a")), cx(num("1")), Some(cx(num("2"))))),
            cx(num("3"))
        )
    );
    assert_eq!(falha("print 1"), 0);
    assert_eq!(falha("and"), 0);
    assert_eq!(falha(";"), 0);
    assert_eq!(falha("}"), 0);
}
