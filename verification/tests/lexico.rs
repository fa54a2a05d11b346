use mini_lox_rust::analisador_lexico::{analisar, ErroLexico, Simbolo};
use mini_lox_rust::escrita::escrever;

fn numero(texto: &str) -> Simbolo {
    Simbolo::Numero(texto.to_string())
}

fn nome(texto: &str) -> Simbolo {
    Simbolo::Identificador(texto.to_string())
}

fn texto(conteudo: &str) -> Simbolo {
    Simbolo::String(conteudo.to_string())
}

#[test]
fn declaracao_em_simbolos() {
    assert_eq!(
        analisar("var x = 2"),
        Ok(vec![Simbolo::Var, nome("x"), Simbolo::Igual, numero("2"), Simbolo::Fim])
    );
}

#[test]
fn texto_vazio_tem_so_o_fim() {
    assert_eq!(analisar(""), Ok(vec![Simbolo::Fim]));
    assert_eq!(analisar(" \t\n "), Ok(vec![Simbolo::Fim]));
}

#[test]
fn operadores_de_um_e_de_dois_caracteres() {
    assert_eq!(
        analisar("== != >= <= = ! > <"),
        Ok(vec![
            Simbolo::IgualIgual,
            Simbolo::Diferente,
            Simbolo::MaiorIgual,
            Simbolo::MenorIgual,
            Simbolo::Igual,
            Simbolo::Negacao,
            Simbolo::Maior,
            Simbolo::Menor,
            Simbolo::Fim,
        ])
    );
    assert_eq!(
        analisar("a>=b"),
        Ok(vec![nome("a"), Simbolo::MaiorIgual, nome("b"), Simbolo::Fim])
    );
    assert_eq!(
        analisar("==="),
        Ok(vec![Simbolo::IgualIgual, Simbolo::Igual, Simbolo::Fim])
    );
    assert_eq!(
        analisar("!!x"),
        Ok(vec![Simbolo::Negacao, Simbolo::Negacao, nome("x"), Simbolo::Fim])
    );
    assert_eq!(
        analisar("! ="),
        Ok(vec![Simbolo::Negacao, Simbolo::Igual, Simbolo::Fim])
    );
}

#[test]
fn pontuacao() {
    assert_eq!(
        analisar(". ( ) { } , ; + - * / %"),
        Ok(vec![
            Simbolo::Ponto,
            Simbolo::AbreParenteses,
            Simbolo::FechaParenteses,
            Simbolo::AbreChaves,
            Simbolo::FechaChaves,
            Simbolo::Virgula,
            Simbolo::PontoVirgula,
            Simbolo::Soma,
            Simbolo::Subtracao,
            Simbolo::Multiplicacao,
            Simbolo::Divisao,
            Simbolo::Modulo,
            Simbolo::Fim,
        ])
    );
}

#[test]
fn palavras_reservadas() {
    assert_eq!(
        analisar("and or var if else while print"),
        Ok(vec![
            Simbolo::And,
            Simbolo::Or,
            Simbolo::Var,
            Simbolo::If,
            Simbolo::Else,
            Simbolo::While,
            Simbolo::Print,
            Simbolo::Fim,
        ])
    );
}

#[test]
fn identificadores() {
    assert_eq!(
        analisar("_a1 abc_2 whilex If andor v"),
        Ok(vec![
            nome("_a1"),
            nome("abc_2"),
            nome("whilex"),
            nome("If"),
            nome("andor"),
            nome("v"),
            Simbolo::Fim,
        ])
    );
    assert_eq!(analisar("true"), Ok(vec![nome("true"), Simbolo::Fim]));
}

#[test]
fn numeros() {
    assert_eq!(analisar("42"), Ok(vec![numero("42"), Simbolo::Fim]));
    assert_eq!(analisar("2.72"), Ok(vec![numero("2.72"), Simbolo::Fim]));
    assert_eq!(analisar("007"), Ok(vec![numero("007"), Simbolo::Fim]));
    assert_eq!(analisar("1."), Ok(vec![numero("1."), Simbolo::Fim]));
    assert_eq!(
        analisar("1.2.3"),
        Ok(vec![numero("1.2"), Simbolo::Ponto, numero("3"), Simbolo::Fim])
    );
    assert_eq!(
        analisar(".5"),
        Ok(vec![Simbolo::Ponto, numero("5"), Simbolo::Fim])
    );
    assert_eq!(
        analisar("1.foo"),
        Ok(vec![numero("1."), nome("foo"), Simbolo::Fim])
    );
    assert_eq!(
        analisar("12abc"),
        Ok(vec![numero("12"), nome("abc"), Simbolo::Fim])
    );
}

#[test]
fn textos_e_escapes() {
    assert_eq!(analisar("\"oi\""), Ok(vec![texto("oi"), Simbolo::Fim]));
    assert_eq!(analisar("\"\""), Ok(vec![texto(""), Simbolo::Fim]));
    assert_eq!(
        analisar("\"a\\nb\\tc\\rd\""),
        Ok(vec![texto("a\nb\tc\rd"), Simbolo::Fim])
    );
    assert_eq!(
        analisar("\"diz \\\"oi\\\" e \\\\ fim\""),
        Ok(vec![texto("diz \"oi\" e \\ fim"), Simbolo::Fim])
    );
    assert_eq!(analisar("\"a\\qb\""), Ok(vec![texto("aqb"), Simbolo::Fim]));
    assert_eq!(
        analisar("\"x\" + \"y\""),
        Ok(vec![texto("x"), Simbolo::Soma, texto("y"), Simbolo::Fim])
    );
    assert_eq!(
        analisar("\"com @ e é\""),
        Ok(vec![texto("com @ e é"), Simbolo::Fim])
    );
}

#[test]
fn texto_sem_fecho_acaba_com_a_linha() {
    assert_eq!(analisar("\"abc"), Ok(vec![texto("abc"), Simbolo::Fim]));
    assert_eq!(analisar("\"ab\\"), Ok(vec![texto("ab"), Simbolo::Fim]));
    assert_eq!(analisar("1 \""), Ok(vec![numero("1"), texto(""), Simbolo::Fim]));
}

#[test]
fn caractere_invalido() {
    assert_eq!(
        analisar("1 + @"),
        Err(ErroLexico { caractere: '@', posicao: 4 })
    );
    assert_eq!(
        analisar("x\r"),
        Err(ErroLexico { caractere: '\r', posicao: 1 })
    );
    assert_eq!(
        analisar("é"),
        Err(ErroLexico { caractere: 'é', posicao: 0 })
    );
    assert_eq!(
        analisar("aé = 1"),
        Err(ErroLexico { caractere: 'é', posicao: 1 })
    );
    assert_eq!(
        analisar("a # b # c"),
        Err(ErroLexico { caractere: '#', posicao: 2 })
    );
    assert_eq!(
        analisar("\"é\" ?"),
        Err(ErroLexico { caractere: '?', posicao: 4 })
    );
}

#[test]
fn escrita_dos_simbolos() {
    let simbolos = analisar("var x=2").unwrap();
    assert_eq!(escrever(&simbolos), "var x = 2  ");
    let simbolos = analisar("\"a\\\"b\\\\c\"").unwrap();
    assert_eq!(simbolos, vec![texto("a\"b\\c"), Simbolo::Fim]);
    assert_eq!(escrever(&simbolos), "\"a\\\"b\\\\c\"  ");
    assert_eq!(escrever(&vec![]), "");
    assert_eq!(escrever(&vec![Simbolo::Fim]), " ");
    assert_eq!(
        escrever(&vec![
            Simbolo::If,
            Simbolo::AbreParenteses,
            nome("a"),
            Simbolo::MenorIgual,
            numero("1.5"),
            Simbolo::FechaParenteses,
            Simbolo::Print,
            Simbolo::Fim,
        ]),
        "if ( a <= 1.5 ) print  "
    );
}

#[test]
fn reler_o_que_foi_lido() {
    let fontes = [
        "",
        "var x = 2",
        "x=4",
        "5 * (2 + 3)",
        "10 / 2 - 1",
        "{ var a = 1; } a",
        "if (1 < 2) 3 else 4",
        "while (i < 5) { i = i + 1; }",
        "a.b(c, d) % 2 >= !e != f == g <= h > i",
        "\"texto com \\\"aspas\\\" e \\\\ barras\\n\" + \"\\t\"",
        "1.2.3 .5 1.foo",
        "and or var if else while print andor _x x_1",
        "\"sem fecho",
        "a=-b",
    ];
    for fonte in fontes {
        let simbolos = analisar(fonte).unwrap();
        let escrito = escrever(&simbolos);
        assert_eq!(analisar(&escrito), Ok(simbolos));
    }
}
