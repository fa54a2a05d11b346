//! Helpers that move between `str`, `String` and sequences of characters.
use vstd::prelude::*;
use vstd::std_specs::iter::IteratorSpec;

verus! {

/// `String::push` appends the given character to the end of the string; the
/// characters that were there stay, in their order.
pub assume_specification[ std::string::String::push ](s: &mut std::string::String, ch: char)
    ensures
        final(s)@ == old(s)@.push(ch),
;

/// The characters of `texto`, in order.
pub fn caracteres(texto: &str) -> (v: Vec<char>)
    ensures
        v@ == texto@,
{
    let mut v: Vec<char> = Vec::new();
    let mut it = texto.chars();
    loop
        invariant
            v@ + it.remaining() == texto@,
            it.obeys_prophetic_iter_laws(),
            it.decrease() is Some,
        decreases it.decrease()->0,
    {
        let ghost antes = it;
        match it.next() {
            Some(c) => {
                proof {
                    vstd::string::next_postcondition(&antes, &it, Some(c));
                }
                v.push(c);
                assert(v@ + it.remaining() =~= texto@);
            },
            None => {
                proof {
                    vstd::string::next_postcondition(&antes, &it, None);
                }
                assert(v@ =~= texto@);
                return v;
            },
        }
    }
}

/// The characters of `t` from `inicio` up to, not including, `fim`, as a string.
pub(crate) fn fatia(t: &Vec<char>, inicio: usize, fim: usize) -> (s: String)
    requires
        inicio <= fim <= t@.len(),
    ensures
        s@ == t@.subrange(inicio as int, fim as int),
{
    let mut s = String::new();
    let mut i: usize = inicio;
    while i < fim
        invariant
            inicio <= i <= fim <= t@.len(),
            s@ == t@.subrange(inicio as int, i as int),
        decreases fim - i,
    {
        s.push(t[i]);
        i = i + 1;
        assert(s@ =~= t@.subrange(inicio as int, i as int));
    }
    s
}

} // verus!
