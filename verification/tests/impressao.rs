use mini_lox_rust::analisador_lexico::analisar;
use mini_lox_rust::analisador_sintatico::Analisador;
use mini_lox_rust::arvore_sintatica_abstrata::Expr;
use mini_lox_rust::texto::caracteres;

fn linhas(fonte: &str, nivel: usize) -> Vec<String> {
    Analisador::new(analisar(fonte).unwrap())
        .analisar_expressao()
        .unwrap()
        .imprimir(nivel)
}

#[test]
fn linhas_de_folhas() {
    assert_eq!(linhas("42", 0), vec!["Número: 42"]);
    assert_eq!(linhas("2.72", 1), vec!["   Número: 2.72"]);
    assert_eq!(linhas("x", 2), vec!["      Identificador: x"]);
    assert_eq!(linhas("\"oi\"", 0), vec!["String: \"oi\""]);
    assert_eq!(linhas("\"\"", 1), vec!["   String: \"\""]);
}

#[test]
fn linhas_de_operadores_binarios() {
    assert_eq!(linhas("1 + 2", 0), vec!["Soma:", "   Número: 1", "   Número: 2"]);
    assert_eq!(
        linhas("1 + 2 * 3", 0),
        vec![
            "Soma:",
            "   Número: 1",
            "   Multiplicação:",
            "      Número: 2",
            "      Número: 3",
        ]
    );
    assert_eq!(linhas("a - b", 0)[0], "Subtração:");
    assert_eq!(linhas("a / b", 0)[0], "Divisão:");
    assert_eq!(linhas("a % b", 0)[0], "Modulo:");
    assert_eq!(linhas("a and b", 0)[0], "And:");
    assert_eq!(linhas("a or b", 0)[0], "Or:");
    assert_eq!(linhas("a > b", 0)[0], "Maior (>):");
    assert_eq!(linhas("a < b", 0)[0], "Menor (<):");
    assert_eq!(linhas("a >= b", 0)[0], "Maior Igual (>=):");
    assert_eq!(linhas("a <= b", 0)[0], "Menor Igual (<=):");
    assert_eq!(linhas("a == b", 0)[0], "Igual (==):");
    assert_eq!(linhas("a != b", 1)[0], "   Diferente (!=):");
}

#[test]
fn linhas_de_operadores_unarios() {
    assert_eq!(linhas("!x", 0), vec!["Negação (!):", "   Identificador: x"]);
    assert_eq!(linhas("-x", 1), vec!["   Negação Aritmética (-):", "      Identificador: x"]);
    assert_eq!(
        Expr::Print(Box::new(Expr::Numero("1".to_string()))).imprimir(0),
        vec!["Print:", "   Número: 1"]
    );
}

#[test]
fn linhas_de_variaveis() {
    assert_eq!(linhas("x = 4", 0), vec!["Assign: x =", "   Número: 4"]);
    assert_eq!(linhas("var x = 2", 0), vec!["VarDef: var x =", "   Número: 2"]);
    assert_eq!(linhas("var x", 1), vec!["   VarDef: var x =", "      Número: 0"]);
}

#[test]
fn linhas_de_blocos() {
    assert_eq!(linhas("{}", 0), vec!["Block:"]);
    assert_eq!(
        linhas("{ var a = 1; a }", 0),
        vec!["Block:", "   VarDef: var a =", "      Número: 1", "   Identificador: a"]
    );
}

#[test]
fn linhas_de_condicionais_e_repeticoes() {
    assert_eq!(
        linhas("if (1 < 2) 3 else 4", 0),
        vec![
            "If:",
            "   Menor (<):",
            "      Número: 1",
            "      Número: 2",
            "Then:",
            "   Número: 3",
            "Else:",
            "   Número: 4",
        ]
    );
    assert_eq!(
        linhas("if (a) b", 1),
        vec!["   If:", "      Identificador: a", "   Then:", "      Identificador: b"]
    );
    assert_eq!(
        linhas("while (a) { b }", 0),
        vec![
            "While:",
            "   Identificador: a",
            "Corpo:",
            "   Block:",
            "      Identificador: b",
        ]
    );
}

#[test]
fn linhas_de_atributos_e_chamadas() {
    assert_eq!(linhas("a.b", 0), vec!["GetAttr: b", "   Identificador: a"]);
    assert_eq!(linhas("f()", 0), vec!["Call:", "   Identificador: f"]);
    assert_eq!(
        linhas("f(1, x)", 1),
        vec![
            "   Call:",
            "      Identificador: f",
            "   Argumento 0:",
            "      Número: 1",
            "   Argumento 1:",
            "      Identificador: x",
        ]
    );
}

#[test]
fn numero_do_argumento_em_decimal() {
    let texto = linhas("f(a, a, a, a, a, a, a, a, a, a, a, a)", 0);
    assert_eq!(texto.len(), 2 + 2 * 12);
    assert_eq!(texto[2], "Argumento 0:");
    assert_eq!(texto[20], "Argumento 9:");
    assert_eq!(texto[22], "Argumento 10:");
    assert_eq!(texto[24], "Argumento 11:");
    let muitos = Expr::Call(
        Box::new(Expr::Identificador("f".to_string())),
        (0..1235).map(|_| Expr::Numero("0".to_string())).collect(),
    );
    let texto = muitos.imprimir(0);
    assert_eq!(texto[2 + 2 * 100], "Argumento 100:");
    assert_eq!(texto[2 + 2 * 1234], "Argumento 1234:");
    assert_eq!(texto[2 + 2 * 1090], "Argumento 1090:");
}

#[test]
fn caracteres_de_um_texto() {
    assert_eq!(caracteres("aé\n"), vec!['a', 'é', '\n']);
    assert_eq!(caracteres(""), Vec::<char>::new());
    assert_eq!(caracteres("número").len(), 6);
}
