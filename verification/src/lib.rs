//! A line-oriented front end and evaluator for a small expression-and-statement
//! language.
//!
//! A line of text becomes symbols (`analisador_lexico`), the symbols become a
//! tree (`analisador_sintatico`, `arvore_sintatica_abstrata`), and the tree is
//! evaluated step by step by a machine (`avaliador`) over values that are
//! kept as the bits of a number (`valores`). A whole text is run line by line
//! with one set of variables (`execucao`). The machine does no arithmetic: it
//! asks its host for every sum, product, quotient and remainder and for the
//! value of every literal.
//!
//! What a tree and a text mean is said in `semantica` and `execucao`, with
//! the proofs that the machine and the run compute it. `escrita` writes
//! symbols back as text that the lexer reads as the same symbols,
//! `aritmetica` shows that arithmetic is read and evaluated by the usual
//! rules, and `impressao` gives the lines that show a tree.
pub mod texto;
pub mod analisador_lexico;
pub mod arvore_sintatica_abstrata;
pub mod analisador_sintatico;
pub mod valores;
pub mod avaliador;
pub mod semantica;
pub mod impressao;
pub mod execucao;
pub mod escrita;
pub mod aritmetica;

pub use crate::analisador_lexico::{analisar, Simbolo};
pub use crate::analisador_sintatico::Analisador;
pub use crate::arvore_sintatica_abstrata::Expr;
pub use crate::execucao::executar;
