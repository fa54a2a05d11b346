use mini_lox_rust::analisador_lexico::ErroLexico;
use mini_lox_rust::arvore_sintatica_abstrata::{Expr, OpBinario};
use mini_lox_rust::execucao::{
    analisar_linha, em_branco, executar, separar_linhas, Erro, Evento, Execucao, Linha, Programa,
};
use mini_lox_rust::valores::Valor;

fn valor(x: f64) -> Valor {
    Valor { bits: x.to_bits() }
}

fn responder(evento: &Evento) -> Valor {
    match evento {
        Evento::Converter(texto) => valor(texto.parse::<f64>().unwrap()),
        Evento::Calcular(op, a, b) => {
            let x = f64::from_bits(a.bits);
            let y = f64::from_bits(b.bits);
            valor(match op {
                OpBinario::Soma => x + y,
                OpBinario::Subtracao => x - y,
                OpBinario::Multiplicacao => x * y,
                OpBinario::Divisao => x / y,
                OpBinario::Modulo => x % y,
                _ => unreachable!(),
            })
        }
        _ => valor(0.0),
    }
}

fn relato(fonte: &str) -> (f64, Vec<Evento>) {
    let programa = Programa::new(fonte);
    let mut execucao = executar(&programa);
    let mut eventos = Vec::new();
    let mut resposta = valor(0.0);
    loop {
        let evento = execucao.passo(resposta);
        resposta = responder(&evento);
        match evento {
            Evento::Concluido(v) => return (f64::from_bits(v.bits), eventos),
            Evento::Falha(..) | Evento::Avaliada(..) => eventos.push(evento),
            _ => {}
        }
    }
}

fn resultado(fonte: &str) -> f64 {
    relato(fonte).0
}

#[test]
fn linhas_de_um_texto() {
    assert_eq!(separar_linhas("a\nb"), vec!["a", "b"]);
    assert_eq!(separar_linhas("a\nb\n"), vec!["a", "b"]);
    assert_eq!(separar_linhas("a\r\nb\r\n"), vec!["a", "b"]);
    assert_eq!(separar_linhas("a\n\nb"), vec!["a", "", "b"]);
    assert_eq!(separar_linhas(""), Vec::<String>::new());
    assert_eq!(separar_linhas("\n"), vec![""]);
    assert_eq!(separar_linhas("\r\n"), vec![""]);
    assert_eq!(separar_linhas("a\r"), vec!["a\r"]);
    assert_eq!(separar_linhas("a\r\rb\r\r\nc"), vec!["a\r\rb\r", "c"]);
    assert_eq!(separar_linhas("sem fim de linha"), vec!["sem fim de linha"]);
}

#[test]
fn linhas_como_as_da_biblioteca() {
    let textos = [
        "",
        "\n",
        "\n\n",
        "a",
        "a\n",
        "a\nb",
        "a\r\nb",
        "a\rb\n",
        "\r",
        "\r\n\r\n",
        "var x = 2\nx = 4\nx",
        "um\n\r\ndois\r\n\ntrês\r",
        "\n\nfim",
    ];
    for texto in textos {
        let esperado: Vec<String> = texto.lines().map(|l| l.to_string()).collect();
        assert_eq!(separar_linhas(texto), esperado);
    }
}

#[test]
fn linhas_em_branco() {
    assert!(em_branco(""));
    assert!(em_branco(" "));
    assert!(em_branco(" \t \r"));
    assert!(em_branco("\x0b\x0c\n"));
    assert!(em_branco("\u{a0}\u{3000}"));
    assert!(!em_branco(" a "));
    assert!(!em_branco("0"));
    assert!(!em_branco("\u{200b}"));
}

#[test]
fn brancos_como_os_da_biblioteca() {
    for codigo in 0..=0x10ffffu32 {
        if let Some(c) = char::from_u32(codigo) {
            let mut linha = String::new();
            linha.push(c);
            assert_eq!(em_branco(&linha), linha.trim().is_empty());
            assert_eq!(em_branco(&linha), c.is_whitespace());
        }
    }
    for linha in [" \t x", "x \u{2003}", "\u{2003} \u{85}", "a\u{a0}b", ""] {
        assert_eq!(em_branco(linha), linha.trim().is_empty());
    }
}

#[test]
fn leitura_de_uma_linha() {
    assert_eq!(
        analisar_linha("2 + 3"),
        Ok(Expr::Soma(
            Box::new(Expr::Numero("2".to_string())),
            Box::new(Expr::Numero("3".to_string()))
        ))
    );
    assert_eq!(
        analisar_linha("1 + @"),
        Err(Erro::Lexico(ErroLexico { caractere: '@', posicao: 4 }))
    );
    assert_eq!(analisar_linha("(1 + 2"), Err(Erro::Sintatico(4)));
    assert_eq!(analisar_linha("1 = 2"), Err(Erro::Sintatico(2)));
    assert_eq!(analisar_linha(""), Err(Erro::Sintatico(0)));
    assert_eq!(
        analisar_linha("( @"),
        Err(Erro::Lexico(ErroLexico { caractere: '@', posicao: 2 }))
    );
}

#[test]
fn programa_lido_linha_a_linha() {
    let programa = Programa::new("var x = 1\n\n  \n(1 +\ny = #\nx");
    assert_eq!(programa.len(), 6);
    assert_eq!(
        programa.linha(0),
        Some(&Linha::Instrucao(Expr::VarDef(
            "x".to_string(),
            Box::new(Expr::Numero("1".to_string()))
        )))
    );
    assert_eq!(programa.linha(1), Some(&Linha::EmBranco));
    assert_eq!(programa.linha(2), Some(&Linha::EmBranco));
    assert_eq!(programa.linha(3), Some(&Linha::Falha(Erro::Sintatico(3))));
    assert_eq!(
        programa.linha(4),
        Some(&Linha::Falha(Erro::Lexico(ErroLexico { caractere: '#', posicao: 4 })))
    );
    assert_eq!(
        programa.linha(5),
        Some(&Linha::Instrucao(Expr::Identificador("x".to_string())))
    );
    assert_eq!(programa.linha(6), None);
    assert_eq!(Programa::new("").len(), 0);
    assert_eq!(Programa::new("").linha(0), None);
}

#[test]
fn resultado_da_ultima_linha() {
    assert_eq!(resultado("2 + 3"), 5.0);
    assert_eq!(resultado("1\n2\n3"), 3.0);
    assert_eq!(resultado("var x = 2\nx = 4\nx"), 4.0);
    assert_eq!(resultado("var i = 0\nwhile (i < 5) { i = i + 1; }\ni"), 5.0);
    assert_eq!(resultado("{ var a = 1; } a"), 1.0);
    assert_eq!(resultado("{ var a = 1; }\na"), 1.0);
    assert_eq!(resultado("var a = 10\r\na * 2\r\n"), 20.0);
}

#[test]
fn programa_sem_instrucoes() {
    assert_eq!(relato(""), (0.0, vec![]));
    assert_eq!(relato("\n  \n\t\n"), (0.0, vec![]));
}

#[test]
fn linhas_em_branco_sao_saltadas() {
    assert_eq!(
        relato("\n1 + 1\n\n   \n5\n\n"),
        (
            5.0,
            vec![Evento::Avaliada(2, valor(2.0)), Evento::Avaliada(5, valor(5.0))]
        )
    );
}

#[test]
fn linha_mal_formada_nao_muda_nada() {
    assert_eq!(
        relato("var x = 1\n(1 +\nx"),
        (
            1.0,
            vec![
                Evento::Avaliada(1, valor(1.0)),
                Evento::Falha(2, Erro::Sintatico(3)),
                Evento::Avaliada(3, valor(1.0)),
            ]
        )
    );
    assert_eq!(
        relato("var x = 2\n1 = x\n(x = 9\nx = @"),
        (
            2.0,
            vec![
                Evento::Avaliada(1, valor(2.0)),
                Evento::Falha(2, Erro::Sintatico(2)),
                Evento::Falha(3, Erro::Sintatico(4)),
                Evento::Falha(
                    4,
                    Erro::Lexico(ErroLexico { caractere: '@', posicao: 4 })
                ),
            ]
        )
    );
    assert_eq!(resultado("var x = 2\n1 = x\n(x = 9\nx = @\nx"), 2.0);
    assert_eq!(resultado("7\n)"), 7.0);
    assert_eq!(resultado(")\n7"), 7.0);
    assert_eq!(resultado(")"), 0.0);
}

#[test]
fn variaveis_passam_de_linha_para_linha() {
    assert_eq!(resultado("var a = 10\na"), 10.0);
    assert_eq!(resultado("var c = 1\nvar d = c + 2\nd"), 3.0);
    assert_eq!(resultado("x = 1\nx = x + 1\nx = x * 10\nx"), 20.0);
    assert_eq!(resultado("if (1) { var dentro = 3; }\ndentro"), 3.0);
}

#[test]
fn cada_execucao_tem_as_suas_variaveis() {
    let primeiro = Programa::new("var x = 1\nx");
    let segundo = Programa::new("x");
    let mut a = Execucao::new(&primeiro);
    let mut b = executar(&segundo);
    let mut fim_a = None;
    let mut fim_b = None;
    let mut resposta_a = valor(0.0);
    let mut resposta_b = valor(0.0);
    while fim_a.is_none() || fim_b.is_none() {
        let evento = a.passo(resposta_a);
        resposta_a = responder(&evento);
        if let Evento::Concluido(v) = evento {
            fim_a = Some(f64::from_bits(v.bits));
        }
        let evento = b.passo(resposta_b);
        resposta_b = responder(&evento);
        if let Evento::Concluido(v) = evento {
            fim_b = Some(f64::from_bits(v.bits));
        }
    }
    assert_eq!(fim_a, Some(1.0));
    assert_eq!(fim_b, Some(0.0));
}

#[test]
fn passos_de_uma_execucao() {
    let programa = Programa::new("1 + 2\n)");
    let mut execucao = executar(&programa);
    assert_eq!(execucao.passo(valor(0.0)), Evento::Iniciada(1));
    assert_eq!(execucao.passo(valor(0.0)), Evento::Continuar);
    assert_eq!(execucao.passo(valor(0.0)), Evento::Converter("1".to_string()));
    assert_eq!(execucao.passo(valor(1.0)), Evento::Continuar);
    assert_eq!(execucao.passo(valor(0.0)), Evento::Continuar);
    assert_eq!(execucao.passo(valor(0.0)), Evento::Converter("2".to_string()));
    assert_eq!(execucao.passo(valor(2.0)), Evento::Continuar);
    assert_eq!(
        execucao.passo(valor(0.0)),
        Evento::Calcular(OpBinario::Soma, valor(1.0), valor(2.0))
    );
    assert_eq!(execucao.passo(valor(3.0)), Evento::Avaliada(1, valor(3.0)));
    assert_eq!(execucao.passo(valor(0.0)), Evento::Falha(2, Erro::Sintatico(0)));
    assert_eq!(execucao.passo(valor(0.0)), Evento::Concluido(valor(3.0)));
    assert_eq!(execucao.passo(valor(0.0)), Evento::Concluido(valor(3.0)));
    assert!(execucao.saida().is_empty());
}
