use mini_lox_rust::analisador_lexico::analisar;
use mini_lox_rust::analisador_sintatico::Analisador;
use mini_lox_rust::arvore_sintatica_abstrata::{Expr, OpBinario};
use mini_lox_rust::avaliador::{Acao, Ambiente, Avaliacao};
use mini_lox_rust::valores::Valor;

fn valor(x: f64) -> Valor {
    Valor { bits: x.to_bits() }
}

fn numero(v: Valor) -> f64 {
    f64::from_bits(v.bits)
}

fn calcular(op: OpBinario, a: Valor, b: Valor) -> Valor {
    let x = numero(a);
    let y = numero(b);
    valor(match op {
        OpBinario::Soma => x + y,
        OpBinario::Subtracao => x - y,
        OpBinario::Multiplicacao => x * y,
        OpBinario::Divisao => x / y,
        OpBinario::Modulo => x % y,
        _ => unreachable!(),
    })
}

fn arvore(fonte: &str) -> Expr {
    Analisador::new(analisar(fonte).unwrap())
        .analisar_expressao()
        .unwrap()
}

fn correr(maquina: &mut Avaliacao) -> f64 {
    let mut resposta = valor(0.0);
    loop {
        match maquina.passo(resposta) {
            Acao::Continuar => {}
            Acao::Converter(texto) => resposta = valor(texto.parse::<f64>().unwrap()),
            Acao::Calcular(op, a, b) => resposta = calcular(op, a, b),
            Acao::Concluido(v) => return numero(v),
        }
    }
}

fn avaliar_em(fonte: &str, ambiente: Ambiente) -> (f64, Ambiente, Vec<f64>) {
    let arvore = arvore(fonte);
    let mut maquina = arvore.avaliar_com_contexto(ambiente);
    let resultado = correr(&mut maquina);
    let saida = maquina.saida().iter().map(|v| numero(*v)).collect();
    let (fim, ambiente) = maquina.concluir();
    assert_eq!(fim.map(numero).map(f64::to_bits), Some(resultado.to_bits()));
    (resultado, ambiente, saida)
}

fn avaliar(fonte: &str) -> f64 {
    avaliar_em(fonte, Ambiente::new()).0
}

fn seguidas(fontes: &[&str]) -> f64 {
    let mut ambiente = Ambiente::new();
    let mut ultimo = 0.0;
    for fonte in fontes {
        let (resultado, depois, _) = avaliar_em(fonte, ambiente);
        ambiente = depois;
        ultimo = resultado;
    }
    ultimo
}

#[test]
fn aritmetica() {
    assert_eq!(avaliar("2 + 3"), 5.0);
    assert_eq!(avaliar("5 * (2 + 3)"), 25.0);
    assert_eq!(avaliar("10 / 2 - 1"), 4.0);
    assert_eq!(avaliar("1 + 2 * 3"), 7.0);
    assert_eq!(avaliar("1 - 2 - 3"), -4.0);
    assert_eq!(avaliar("8 / 4 / 2"), 1.0);
    assert_eq!(avaliar("0.1 + 0.2"), 0.1 + 0.2);
    assert_eq!(avaliar("1 / 3"), 1.0 / 3.0);
    assert_eq!(avaliar("7 % 3"), 1.0);
    assert_eq!(avaliar("-7 % 3"), -1.0);
    assert_eq!(avaliar("5.5 % 2"), 1.5);
}

#[test]
fn literais() {
    assert_eq!(avaliar("42"), 42.0);
    assert_eq!(avaliar("2.72"), 2.72);
    assert_eq!(avaliar("1."), 1.0);
    assert_eq!(avaliar("007"), 7.0);
    assert_eq!(avaliar("0.000001"), 0.000001);
    assert_eq!(avaliar("123456789012345678901234567890"), 123456789012345678901234567890.0);
    assert_eq!(avaliar("\"texto\""), 0.0);
}

#[test]
fn divisao_por_zero() {
    assert_eq!(avaliar("1 / 0"), f64::INFINITY);
    assert_eq!(avaliar("-1 / 0"), f64::NEG_INFINITY);
    assert!(avaliar("0 / 0").is_nan());
    assert!(avaliar("1 % 0").is_nan());
}

#[test]
fn negacoes() {
    assert_eq!(avaliar("-5"), -5.0);
    assert_eq!(avaliar("--5"), 5.0);
    assert_eq!(avaliar("-0").to_bits(), (-0.0f64).to_bits());
    assert_eq!(avaliar("!true"), 0.0);
    assert_eq!(avaliar("!false"), 1.0);
    assert_eq!(avaliar("!!true"), 1.0);
    assert_eq!(avaliar("!5"), 0.0);
    assert_eq!(avaliar("!0"), 1.0);
    assert_eq!(avaliar("!-0"), 1.0);
    assert_eq!(avaliar("!(0 / 0)"), 0.0);
    assert_eq!(avaliar("-(1 / 0)"), f64::NEG_INFINITY);
}

#[test]
fn comparacoes() {
    assert_eq!(avaliar("1 < 2"), 1.0);
    assert_eq!(avaliar("2 < 1"), 0.0);
    assert_eq!(avaliar("2 > 1"), 1.0);
    assert_eq!(avaliar("1 > 2"), 0.0);
    assert_eq!(avaliar("2 >= 2"), 1.0);
    assert_eq!(avaliar("1 >= 2"), 0.0);
    assert_eq!(avaliar("2 <= 2"), 1.0);
    assert_eq!(avaliar("3 <= 2"), 0.0);
    assert_eq!(avaliar("1 == 1"), 1.0);
    assert_eq!(avaliar("1 == 2"), 0.0);
    assert_eq!(avaliar("1 != 2"), 1.0);
    assert_eq!(avaliar("1 != 1"), 0.0);
    assert_eq!(avaliar("-1 < 1"), 1.0);
    assert_eq!(avaliar("-2 < -1"), 1.0);
    assert_eq!(avaliar("-1 < -2"), 0.0);
    assert_eq!(avaliar("0 == -0"), 1.0);
    assert_eq!(avaliar("0 < -0"), 0.0);
    assert_eq!(avaliar("-0 < 0"), 0.0);
    assert_eq!(avaliar("0 >= -0"), 1.0);
}

#[test]
fn comparacoes_com_o_que_nao_e_numero() {
    assert_eq!(avaliar("0 / 0 == 0 / 0"), 0.0);
    assert_eq!(avaliar("0 / 0 != 0 / 0"), 1.0);
    assert_eq!(avaliar("0 / 0 < 1"), 0.0);
    assert_eq!(avaliar("0 / 0 > 1"), 0.0);
    assert_eq!(avaliar("0 / 0 <= 1"), 0.0);
    assert_eq!(avaliar("1 >= 0 / 0"), 0.0);
    assert_eq!(avaliar("1 != 0 / 0"), 1.0);
    assert_eq!(avaliar("if (0 / 0) 1 else 2"), 1.0);
}

#[test]
fn comparacoes_como_as_da_maquina() {
    let numeros = [
        0.0,
        -0.0,
        1.0,
        -1.0,
        2.5,
        -2.5,
        0.1,
        f64::INFINITY,
        f64::NEG_INFINITY,
        f64::NAN,
        -f64::NAN,
        f64::MIN_POSITIVE,
        -f64::MIN_POSITIVE,
        5e-324,
        -5e-324,
        f64::MAX,
        f64::MIN,
        f64::EPSILON,
    ];
    for x in numeros {
        let a = valor(x);
        assert_eq!(a.eh_verdadeiro(), x != 0.0);
        assert_eq!(a.eh_indefinido(), x.is_nan());
        assert_eq!(a.negar().bits, (-x).to_bits());
        for y in numeros {
            let b = valor(y);
            assert_eq!(Valor::comparar(OpBinario::Maior, a, b), x > y);
            assert_eq!(Valor::comparar(OpBinario::Menor, a, b), x < y);
            assert_eq!(Valor::comparar(OpBinario::MaiorIgual, a, b), x >= y);
            assert_eq!(Valor::comparar(OpBinario::MenorIgual, a, b), x <= y);
            assert_eq!(Valor::comparar(OpBinario::IgualIgual, a, b), x == y);
            assert_eq!(Valor::comparar(OpBinario::Diferente, a, b), x != y);
            assert!(!Valor::comparar(OpBinario::Soma, a, b));
            assert!(!Valor::comparar(OpBinario::And, a, b));
        }
    }
    assert_eq!(Valor::de_booleano(true).bits, 1.0f64.to_bits());
    assert_eq!(Valor::de_booleano(false).bits, 0.0f64.to_bits());
}

#[test]
fn e_logico() {
    assert_eq!(avaliar("true and false"), 0.0);
    assert_eq!(avaliar("false and true"), 0.0);
    assert_eq!(avaliar("true and true"), 1.0);
    assert_eq!(avaliar("2 and 3"), 3.0);
    assert_eq!(avaliar("2 and 0"), 0.0);
    assert_eq!(avaliar("0 and 3"), 0.0);
    assert_eq!(seguidas(&["0 and (x = 1)", "x"]), 0.0);
    assert_eq!(seguidas(&["1 and (x = 7)", "x"]), 7.0);
}

#[test]
fn ou_logico() {
    assert_eq!(avaliar("true or false"), 1.0);
    assert_eq!(avaliar("false or true"), 1.0);
    assert_eq!(avaliar("false or false"), 0.0);
    assert_eq!(avaliar("0 or 5"), 1.0);
    assert_eq!(avaliar("5 or 0"), 1.0);
    assert_eq!(avaliar("0 or 0"), 0.0);
    assert_eq!(seguidas(&["2 or (x = 1)", "x"]), 0.0);
    assert_eq!(seguidas(&["0 or (x = 7)", "x"]), 7.0);
}

#[test]
fn variaveis() {
    assert_eq!(avaliar("x"), 0.0);
    assert_eq!(avaliar("var x = 2"), 2.0);
    assert_eq!(avaliar("var x"), 0.0);
    assert_eq!(avaliar("x = 4"), 4.0);
    assert_eq!(seguidas(&["var x = 2", "x = 4", "x"]), 4.0);
    assert_eq!(seguidas(&["var a = 10", "a"]), 10.0);
    assert_eq!(seguidas(&["var c = 1", "var d = c + 2", "d"]), 3.0);
    assert_eq!(seguidas(&["a = b = 3", "a + b"]), 6.0);
    assert_eq!(seguidas(&["var x = 1", "var x = 2", "x"]), 2.0);
    assert_eq!(seguidas(&["x = 5", "y"]), 0.0);
}

#[test]
fn constantes_nao_se_mudam() {
    assert_eq!(avaliar("true"), 1.0);
    assert_eq!(avaliar("false"), 0.0);
    assert_eq!(seguidas(&["var true = 5", "true"]), 1.0);
    assert_eq!(seguidas(&["false = 5", "false"]), 0.0);
    assert_eq!(seguidas(&["var truex = 5", "truex"]), 5.0);
}

#[test]
fn o_ambiente_depois_da_avaliacao() {
    let (_, ambiente, _) = avaliar_em("{ var a = 1; var b = a + 1; }", Ambiente::new());
    assert_eq!(ambiente.consultar("a").map(numero), Some(1.0));
    assert_eq!(ambiente.consultar("b").map(numero), Some(2.0));
    assert_eq!(ambiente.consultar("c"), None);
    assert_eq!(numero(ambiente.valor_de("c")), 0.0);
    assert_eq!(numero(ambiente.valor_de("true")), 1.0);
    assert_eq!(numero(ambiente.valor_de("false")), 0.0);
    assert_eq!(numero(ambiente.valor_de("b")), 2.0);
    let mut outro = Ambiente::new();
    outro.definir("true".to_string(), valor(9.0));
    outro.definir("k".to_string(), valor(3.0));
    outro.definir("k".to_string(), valor(4.0));
    assert_eq!(outro.consultar("true").map(numero), Some(9.0));
    assert_eq!(numero(outro.valor_de("true")), 1.0);
    assert_eq!(numero(outro.valor_de("k")), 4.0);
    assert_eq!(numero(outro.valor_de("tru")), 0.0);
    assert_eq!(numero(outro.valor_de("truee")), 0.0);
}

#[test]
fn blocos() {
    assert_eq!(avaliar("{ var foo = 1; var bar = 2; bar }"), 2.0);
    assert_eq!(avaliar("{ var a = 1; } a"), 1.0);
    assert_eq!(avaliar("{}"), 0.0);
    assert_eq!(avaliar("{ 1; 2; 3 }"), 3.0);
    assert_eq!(avaliar("{ { 1 } { 2 } }"), 2.0);
    assert_eq!(seguidas(&["{ var a = 1; }", "a"]), 1.0);
}

#[test]
fn condicionais() {
    assert_eq!(avaliar("if (true) 10"), 10.0);
    assert_eq!(avaliar("if (false) 10"), 0.0);
    assert_eq!(avaliar("if (1 < 2) 3 else 4"), 3.0);
    assert_eq!(avaliar("if (1 > 2) 3 else 4"), 4.0);
    assert_eq!(avaliar("if (-0) 3 else 4"), 4.0);
    assert_eq!(avaliar("if (0.5) 3 else 4"), 3.0);
    assert_eq!(seguidas(&["if (0) x = 1 else y = 2", "x + y * 10"]), 20.0);
    assert_eq!(seguidas(&["if (x = 1) 5", "x"]), 1.0);
}

#[test]
fn repeticoes() {
    assert_eq!(seguidas(&["var i = 0", "while (i < 5) { i = i + 1; }", "i"]), 5.0);
    assert_eq!(seguidas(&["var i = 0", "while (i < 3) i = i + 1"]), 3.0);
    assert_eq!(avaliar("while (false) 1"), 0.0);
    assert_eq!(seguidas(&["var i = 0", "while (i < 4) { i = i + 1; i * 10 }"]), 40.0);
    assert_eq!(
        seguidas(&[
            "var i = 0",
            "var s = 0",
            "while (i < 3) { var j = 0; while (j < 2) { s = s + 1; j = j + 1; } i = i + 1; }",
            "s",
        ]),
        6.0
    );
    assert_eq!(
        seguidas(&["var n = 10", "var f = 1", "while (n > 1) { f = f * n; n = n - 1; }", "f"]),
        3628800.0
    );
}

#[test]
fn atributos_e_chamadas() {
    assert_eq!(avaliar("a.b"), 0.0);
    assert_eq!(seguidas(&["(x = 3).y", "x"]), 0.0);
    assert_eq!(avaliar("f()"), 0.0);
    assert_eq!(avaliar("f(1, 2)"), 0.0);
    assert_eq!(seguidas(&["f(x = 3, y = x + 1)", "x * 10 + y"]), 34.0);
    assert_eq!(seguidas(&["(z = 3)(1)", "z"]), 0.0);
    assert_eq!(avaliar("f(1) + 2"), 2.0);
}

#[test]
fn impressao_de_valores() {
    let arvore = Expr::Block(vec![
        Expr::Print(Box::new(Expr::Numero("3".to_string()))),
        Expr::Print(Box::new(Expr::Soma(
            Box::new(Expr::Numero("1".to_string())),
            Box::new(Expr::Print(Box::new(Expr::Numero("0.5".to_string())))),
        ))),
    ]);
    let mut maquina = arvore.avaliar();
    assert_eq!(correr(&mut maquina), 1.5);
    let saida: Vec<f64> = maquina.saida().iter().map(|v| numero(*v)).collect();
    assert_eq!(saida, vec![3.0, 0.5, 1.5]);
}

#[test]
fn o_que_a_maquina_pede() {
    let arvore = arvore("1.5 + x");
    let mut maquina = Avaliacao::new(&arvore, Ambiente::new());
    assert_eq!(maquina.acao(), Acao::Continuar);
    assert_eq!(maquina.passo(valor(9.0)), Acao::Continuar);
    assert_eq!(maquina.passo(valor(9.0)), Acao::Converter("1.5".to_string()));
    assert_eq!(maquina.acao(), Acao::Converter("1.5".to_string()));
    assert_eq!(maquina.passo(valor(1.5)), Acao::Continuar);
    assert_eq!(maquina.passo(valor(9.0)), Acao::Continuar);
    assert_eq!(maquina.passo(valor(9.0)), Acao::Continuar);
    assert_eq!(
        maquina.passo(valor(9.0)),
        Acao::Calcular(OpBinario::Soma, valor(1.5), valor(0.0))
    );
    assert_eq!(maquina.passo(valor(1.5)), Acao::Concluido(valor(1.5)));
    assert_eq!(maquina.passo(valor(9.0)), Acao::Concluido(valor(1.5)));
    assert_eq!(maquina.acao(), Acao::Concluido(valor(1.5)));
    let (fim, _) = maquina.concluir();
    assert_eq!(fim, Some(valor(1.5)));
}

#[test]
fn maquina_interrompida() {
    let arvore = arvore("while (true) x = x + 1");
    let mut maquina = arvore.avaliar();
    let mut resposta = valor(0.0);
    for _ in 0..1000 {
        match maquina.passo(resposta) {
            Acao::Converter(texto) => resposta = valor(texto.parse::<f64>().unwrap()),
            Acao::Calcular(op, a, b) => resposta = calcular(op, a, b),
            Acao::Continuar => {}
            Acao::Concluido(_) => panic!("the loop has no end"),
        }
    }
    let (fim, ambiente) = maquina.concluir();
    assert_eq!(fim, None);
    assert!(numero(ambiente.valor_de("x")) > 50.0);
}

#[test]
fn maquina_com_nova_arvore() {
    let primeira = arvore("var x = 2");
    let segunda = arvore("x * 3");
    let mut maquina = Avaliacao::ociosa(Ambiente::new());
    assert_eq!(maquina.acao(), Acao::Concluido(valor(0.0)));
    maquina.recomecar(&primeira);
    assert_eq!(correr(&mut maquina), 2.0);
    maquina.recomecar(&segunda);
    assert_eq!(correr(&mut maquina), 6.0);
}

#[test]
fn arvore_profunda() {
    let mut fonte = String::new();
    for _ in 0..2000 {
        fonte.push('-');
    }
    fonte.push('1');
    let mut arvore = Expr::Numero("1".to_string());
    for _ in 0..200000 {
        arvore = Expr::NegacaoAritmetica(Box::new(arvore));
    }
    let mut maquina = arvore.avaliar();
    assert_eq!(correr(&mut maquina), 1.0);
    drop(maquina);
    let mut resto = arvore;
    while let Expr::NegacaoAritmetica(dentro) = resto {
        resto = *dentro;
    }
    assert_eq!(avaliar(&fonte), 1.0);
}
