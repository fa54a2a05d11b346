//! The one kind of value of the language: a number in the IEEE 754 binary64
//! format, held as its 64 bits.
//!
//! What can be read off the bits is decided here: whether a value counts as
//! true, how two values compare, the negation of a value. Sums, products and
//! the like, and the value of a literal, are asked of the host (see
//! `avaliador`).
use vstd::prelude::*;
use crate::arvore_sintatica_abstrata::OpBinario;

verus! {

/// The bit of the sign, the highest of the 64.
pub const SINAL: u64 = 0x8000_0000_0000_0000;

/// The bits of positive infinity; what is greater, the sign set aside, is no
/// number.
pub const INFINITO: u64 = 0x7ff0_0000_0000_0000;

/// The bits of the number one.
pub const UM: u64 = 0x3ff0_0000_0000_0000;

/// A binary64 number as its bits.
#[derive(Debug, Clone, Copy, PartialEq, Eq, Structural)]
pub struct Valor {
    pub bits: u64,
}

impl Valor {
    /// Positive zero, which also stands for false and for the absence of a
    /// value.
    pub open spec fn zero() -> Valor {
        Valor { bits: 0 }
    }

    /// The number one, which also stands for true.
    pub open spec fn um() -> Valor {
        Valor { bits: UM }
    }

    /// One for `true`, zero for `false`.
    pub open spec fn de_bool(b: bool) -> Valor {
        if b {
            Valor::um()
        } else {
            Valor::zero()
        }
    }

    /// Whether the sign bit is set.
    pub open spec fn negativo(self) -> bool {
        self.bits >= SINAL
    }

    /// The bits without the sign.
    pub open spec fn magnitude(self) -> int {
        if self.bits >= SINAL {
            self.bits - SINAL
        } else {
            self.bits as int
        }
    }

    /// Whether the bits stand for no number.
    pub open spec fn indefinido(self) -> bool {
        self.magnitude() > INFINITO
    }

    /// Whether the value is zero, of either sign.
    pub open spec fn nulo(self) -> bool {
        self.magnitude() == 0
    }

    /// Whether the value counts as true: all but the two zeros do.
    pub open spec fn verdadeiro(self) -> bool {
        !self.nulo()
    }

    /// The place of a number among the numbers: of two numbers the smaller
    /// has the smaller place, and the two zeros share theirs.
    pub open spec fn ordem(self) -> int {
        if self.negativo() {
            -self.magnitude()
        } else {
            self.magnitude()
        }
    }

    /// The value with its sign changed.
    pub open spec fn oposto(self) -> Valor {
        if self.bits >= SINAL {
            Valor { bits: (self.bits - SINAL) as u64 }
        } else {
            Valor { bits: (self.bits + SINAL) as u64 }
        }
    }

    /// What the comparison `op` says of `a` and `b`. Where one of them is no
    /// number, only `!=` holds.
    pub open spec fn compara(op: OpBinario, a: Valor, b: Valor) -> bool {
        let numeros = !a.indefinido() && !b.indefinido();
        match op {
            OpBinario::Maior => numeros && a.ordem() > b.ordem(),
            OpBinario::Menor => numeros && a.ordem() < b.ordem(),
            OpBinario::MaiorIgual => numeros && a.ordem() >= b.ordem(),
            OpBinario::MenorIgual => numeros && a.ordem() <= b.ordem(),
            OpBinario::IgualIgual => numeros && a.ordem() == b.ordem(),
            OpBinario::Diferente => !(numeros && a.ordem() == b.ordem()),
            _ => false,
        }
    }

    /// One for `true`, zero for `false`.
    pub fn de_booleano(b: bool) -> (v: Valor)
        ensures
            v == Valor::de_bool(b),
    {
        if b {
            Valor { bits: UM }
        } else {
            Valor { bits: 0 }
        }
    }

    fn grandeza(&self) -> (m: u64)
        ensures
            m == self.magnitude(),
            m < SINAL,
    {
        if self.bits >= SINAL {
            self.bits - SINAL
        } else {
            self.bits
        }
    }

    /// Whether the value counts as true.
    pub fn eh_verdadeiro(&self) -> (r: bool)
        ensures
            r == self.verdadeiro(),
    {
        self.grandeza() != 0
    }

    /// Whether the bits stand for no number.
    pub fn eh_indefinido(&self) -> (r: bool)
        ensures
            r == self.indefinido(),
    {
        self.grandeza() > INFINITO
    }

    fn lugar(&self) -> (k: i128)
        ensures
            k == self.ordem(),
    {
        let m: u64 = self.grandeza();
        if self.bits >= SINAL {
            -(m as i128)
        } else {
            m as i128
        }
    }

    /// The value with its sign changed.
    pub fn negar(&self) -> (v: Valor)
        ensures
            v == self.oposto(),
    {
        if self.bits >= SINAL {
            Valor { bits: self.bits - SINAL }
        } else {
            Valor { bits: self.bits + SINAL }
        }
    }

    /// Decides the comparison `op` of `a` and `b`; `false` for an operator
    /// that is no comparison.
    pub fn comparar(op: OpBinario, a: Valor, b: Valor) -> (r: bool)
        ensures
            r == Valor::compara(op, a, b),
    {
        let numeros = !a.eh_indefinido() && !b.eh_indefinido();
        let x: i128 = a.lugar();
        let y: i128 = b.lugar();
        match op {
            OpBinario::Maior => numeros && x > y,
            OpBinario::Menor => numeros && x < y,
            OpBinario::MaiorIgual => numeros && x >= y,
            OpBinario::MenorIgual => numeros && x <= y,
            OpBinario::IgualIgual => numeros && x == y,
            OpBinario::Diferente => !(numeros && x == y),
            _ => false,
        }
    }
}

} // verus!
