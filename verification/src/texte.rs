//! Ecriture decimale des entiers dans un `String` : la forme que
//! `Display` donne a un entier non signe, et l'ecriture a virgule fixe.

use vstd::prelude::*;
use vstd::string::StringExecFns;

verus! {

/// Les dix chiffres decimaux.
pub open spec fn chiffres() -> Seq<char> {
    seq!['0', '1', '2', '3', '4', '5', '6', '7', '8', '9']
}

/// Ecriture decimale de `n`, sans zero de tete (`0` s'ecrit `0`).
pub open spec fn decimal(n: nat) -> Seq<char>
    decreases n,
{
    if n < 10 {
        seq![chiffres()[n as int]]
    } else {
        decimal(n / 10).push(chiffres()[(n % 10) as int])
    }
}

/// Les `k` derniers chiffres decimaux de `n`, zeros de tete compris.
pub open spec fn chiffres_fixes(n: nat, k: nat) -> Seq<char>
    decreases k,
{
    if k == 0 {
        Seq::empty()
    } else {
        chiffres_fixes(n / 10, (k - 1) as nat).push(chiffres()[(n % 10) as int])
    }
}

/// Le chiffre `d` sous forme de texte.
fn chiffre_texte(d: u64) -> (r: &'static str)
    requires
        d < 10,
    ensures
        r@ == seq![chiffres()[d as int]],
{
    proof {
        reveal_strlit("0");
        reveal_strlit("1");
        reveal_strlit("2");
        reveal_strlit("3");
        reveal_strlit("4");
        reveal_strlit("5");
        reveal_strlit("6");
        reveal_strlit("7");
        reveal_strlit("8");
        reveal_strlit("9");
    }
    if d == 0 {
        "0"
    } else if d == 1 {
        "1"
    } else if d == 2 {
        "2"
    } else if d == 3 {
        "3"
    } else if d == 4 {
        "4"
    } else if d == 5 {
        "5"
    } else if d == 6 {
        "6"
    } else if d == 7 {
        "7"
    } else if d == 8 {
        "8"
    } else {
        "9"
    }
}

/// Ajoute a `sortie` l'ecriture decimale de `n`.
pub fn ecrire_decimal(sortie: &mut String, n: u64)
    ensures
        final(sortie)@ == old(sortie)@ + decimal(n as nat),
    decreases n,
{
    if n >= 10 {
        ecrire_decimal(sortie, n / 10);
    }
    sortie.append(chiffre_texte(n % 10));
    proof {
        assert(sortie@ =~= old(sortie)@ + decimal(n as nat));
    }
}

/// Ajoute a `sortie` les `k` derniers chiffres decimaux de `n`.
pub fn ecrire_chiffres_fixes(sortie: &mut String, n: u64, k: u64)
    ensures
        final(sortie)@ == old(sortie)@ + chiffres_fixes(n as nat, k as nat),
    decreases k,
{
    if k > 0 {
        ecrire_chiffres_fixes(sortie, n / 10, k - 1);
        sortie.append(chiffre_texte(n % 10));
        proof {
            assert(sortie@ =~= old(sortie)@ + chiffres_fixes(n as nat, k as nat));
        }
    } else {
        proof {
            assert(sortie@ =~= old(sortie)@ + chiffres_fixes(n as nat, k as nat));
        }
    }
}

} // verus!
