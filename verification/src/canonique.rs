//! Forme canonique du contenu d'un chronotope : registre
//! dernier-ecrivain-gagne par entite, rendu trie par `EntityId` sans doublon.

use vstd::prelude::*;
use crate::types::EntityId;

verus! {

/// Contenu d'un journal d'ecritures : pour chaque entite, la pose de sa
/// derniere ecriture.
pub open spec fn lww<P>(j: Seq<(EntityId, P)>) -> Map<u32, P>
    decreases j.len(),
{
    if j.len() == 0 {
        Map::empty()
    } else {
        lww(j.drop_last()).insert(j.last().0.0, j.last().1)
    }
}

/// Suite strictement croissante par identifiant d'entite.
pub open spec fn trie_strict<P>(s: Seq<(EntityId, P)>) -> bool {
    forall|i: int, j: int| 0 <= i < j < s.len() ==> s[i].0.0 < s[j].0.0
}

/// `s` est la forme canonique du contenu `m` : triee sans doublon, et elle
/// porte exactement les paires de `m`.
pub open spec fn canonique<P>(s: Seq<(EntityId, P)>, m: Map<u32, P>) -> bool {
    trie_strict(s) && lww(s) == m
}

/// Une entite figure dans le contenu d'un journal si et seulement si le
/// journal porte au moins une ecriture pour elle.
pub proof fn lemme_lww_domaine<P>(j: Seq<(EntityId, P)>)
    ensures
        forall|k: u32|
            #![trigger lww(j).contains_key(k)]
            lww(j).contains_key(k) <==> exists|i: int| 0 <= i < j.len() && j[i].0.0 == k,
    decreases j.len(),
{
    if j.len() > 0 {
        lemme_lww_domaine(j.drop_last());
        assert forall|k: u32| lww(j).contains_key(k) <==> exists|i: int|
            0 <= i < j.len() && j[i].0.0 == k by {
            let d = j.drop_last();
            if lww(j).contains_key(k) && k != j.last().0.0 {
                assert(lww(d).contains_key(k));
                let i = choose|i: int| 0 <= i < j.drop_last().len() && j.drop_last()[i].0.0 == k;
                assert(j[i].0.0 == k);
            }
            if exists|i: int| 0 <= i < j.len() && j[i].0.0 == k {
                let i = choose|i: int| 0 <= i < j.len() && j[i].0.0 == k;
                if i < j.len() - 1 && k != j.last().0.0 {
                    assert(d[i].0.0 == k);
                    assert(lww(d).contains_key(k));
                }
            }
        }
    }
}

/// Dans une suite triee sans doublon, chaque paire est la valeur retenue
/// pour son entite.
pub proof fn lemme_lww_trie<P>(s: Seq<(EntityId, P)>)
    requires
        trie_strict(s),
    ensures
        forall|i: int|
            #![trigger s[i]]
            0 <= i < s.len() ==> lww(s).contains_key(s[i].0.0) && lww(s)[s[i].0.0] == s[i].1,
    decreases s.len(),
{
    if s.len() > 0 {
        lemme_lww_trie(s.drop_last());
        assert forall|i: int| 0 <= i < s.len() implies lww(s).contains_key(s[i].0.0) && lww(s)[s[i].0.0]
            == s[i].1 by {
            if i < s.len() - 1 {
                assert(s.drop_last()[i] == s[i]);
                assert(s[i].0.0 < s.last().0.0);
            }
        }
    }
}

/// Deux formes canoniques d'un meme contenu sont egales.
pub proof fn lemme_canonique_unique<P>(s1: Seq<(EntityId, P)>, s2: Seq<(EntityId, P)>, m: Map<u32, P>)
    requires
        canonique(s1, m),
        canonique(s2, m),
    ensures
        s1 == s2,
    decreases s1.len(),
{
    lemme_lww_domaine(s1);
    lemme_lww_domaine(s2);
    lemme_lww_trie(s1);
    lemme_lww_trie(s2);
    if s1.len() == 0 {
        if s2.len() > 0 {
            assert(m.contains_key(s2[0].0.0));
        }
        assert(s1 =~= s2);
    } else if s2.len() == 0 {
        assert(m.contains_key(s1[0].0.0));
    } else {
        let k1 = s1.last().0.0;
        let k2 = s2.last().0.0;
        assert(m.contains_key(k1));
        assert(m.contains_key(k2));
        let i2 = choose|i: int| 0 <= i < s2.len() && s2[i].0.0 == k1;
        let i1 = choose|i: int| 0 <= i < s1.len() && s1[i].0.0 == k2;
        assert(k1 <= k2) by {
            if i2 < s2.len() - 1 {
                assert(s2[i2].0.0 < s2[s2.len() - 1].0.0);
            }
        }
        assert(k2 <= k1) by {
            if i1 < s1.len() - 1 {
                assert(s1[i1].0.0 < s1[s1.len() - 1].0.0);
            }
        }
        let m2 = m.remove(k1);
        lemme_trie_sans_dernier(s1);
        lemme_trie_sans_dernier(s2);
        lemme_canonique_unique(s1.drop_last(), s2.drop_last(), m2);
        assert(s1.last() == s2.last());
        assert(s1 =~= s1.drop_last().push(s1.last()));
        assert(s2 =~= s2.drop_last().push(s2.last()));
    }
}

/// Retirer la plus grande entite d'une suite triee retire sa cle du contenu.
proof fn lemme_trie_sans_dernier<P>(s: Seq<(EntityId, P)>)
    requires
        trie_strict(s),
        s.len() > 0,
    ensures
        trie_strict(s.drop_last()),
        lww(s.drop_last()) == lww(s).remove(s.last().0.0),
{
    let d = s.drop_last();
    lemme_lww_domaine(d);
    assert(!lww(d).contains_key(s.last().0.0)) by {
        if lww(d).contains_key(s.last().0.0) {
            let i = choose|i: int| 0 <= i < d.len() && d[i].0.0 == s.last().0.0;
            assert(s[i].0.0 < s[s.len() - 1].0.0);
        }
    }
    assert(lww(d) =~= lww(d).insert(s.last().0.0, s.last().1).remove(s.last().0.0));
}


/// Recherche dichotomique de l'entite `e` dans une suite triee. Rend
/// `(true, i)` si `s[i]` porte `e`, sinon `(false, i)` ou `i` est la place ou
/// l'inserer pour garder l'ordre.
pub fn position<P>(s: &Vec<(EntityId, P)>, e: u32) -> (r: (bool, usize))
    requires
        trie_strict(s@),
    ensures
        r.1 <= s.len(),
        r.0 ==> r.1 < s.len() && s@[r.1 as int].0.0 == e,
        !r.0 ==> forall|i: int| 0 <= i < s.len() ==> (#[trigger] s@[i].0.0 < e <==> i < r.1),
        !r.0 ==> forall|i: int| 0 <= i < s.len() ==> #[trigger] s@[i].0.0 != e,
{
    let mut bas: usize = 0;
    let mut haut: usize = s.len();
    while bas < haut
        invariant
            bas <= haut <= s.len(),
            trie_strict(s@),
            forall|i: int| 0 <= i < bas ==> #[trigger] s@[i].0.0 < e,
            forall|i: int| haut <= i < s.len() ==> #[trigger] s@[i].0.0 > e,
        decreases haut - bas,
    {
        let milieu = bas + (haut - bas) / 2;
        let k = s[milieu].0.0;
        if k == e {
            return (true, milieu);
        } else if k < e {
            bas = milieu + 1;
        } else {
            haut = milieu;
        }
    }
    (false, bas)
}

/// Inscrit `(e, p)` dans une suite triee : remplace la pose de `e` si elle y
/// figure deja, l'insere a sa place sinon.
pub fn inserer_lww<P>(out: &mut Vec<(EntityId, P)>, e: EntityId, p: P)
    requires
        trie_strict(old(out)@),
    ensures
        trie_strict(final(out)@),
        lww(final(out)@) == lww(old(out)@).insert(e.0, p),
{
    let ghost avant = out@;
    let (trouve, i) = position(out, e.0);
    if trouve {
        out.set(i, (e, p));
    } else {
        out.insert(i, (e, p));
    }
    proof {
        let apres = out@;
        let cible = lww(avant).insert(e.0, p);
        lemme_lww_domaine(avant);
        lemme_lww_domaine(apres);
        lemme_lww_trie(avant);
        assert(trie_strict(apres)) by {
            assert forall|a: int, b: int| 0 <= a < b < apres.len() implies apres[a].0.0 < apres[b].0.0 by {
                if trouve {
                    assert(avant[a].0.0 < avant[b].0.0);
                } else {
                    if b < i {
                        assert(apres[a] == avant[a] && apres[b] == avant[b]);
                    } else if b == i {
                        assert(apres[a] == avant[a]);
                    } else if a < i {
                        assert(apres[a] == avant[a] && apres[b] == avant[b - 1]);
                    } else if a == i {
                        assert(apres[b] == avant[b - 1]);
                    } else {
                        assert(apres[a] == avant[a - 1] && apres[b] == avant[b - 1]);
                    }
                }
            }
        }
        lemme_lww_trie(apres);
        assert forall|k: u32| #[trigger] lww(apres).contains_key(k) == cible.contains_key(k) by {
            if lww(apres).contains_key(k) {
                let t = choose|t: int| 0 <= t < apres.len() && apres[t].0.0 == k;
                if k != e.0 {
                    if trouve {
                        assert(avant[t].0.0 == k);
                    } else if t < i {
                        assert(avant[t].0.0 == k);
                    } else {
                        assert(avant[t - 1].0.0 == k);
                    }
                }
            }
            if cible.contains_key(k) {
                if k == e.0 {
                    assert(apres[i as int].0.0 == k);
                } else {
                    let t = choose|t: int| 0 <= t < avant.len() && avant[t].0.0 == k;
                    if trouve {
                        assert(apres[t].0.0 == k);
                    } else if t < i {
                        assert(apres[t].0.0 == k);
                    } else {
                        assert(apres[t + 1].0.0 == k);
                    }
                }
            }
        }
        assert forall|k: u32| #[trigger] lww(apres).contains_key(k) implies lww(apres)[k] == cible[k] by {
            let t = choose|t: int| 0 <= t < apres.len() && apres[t].0.0 == k;
            assert(lww(apres)[apres[t].0.0] == apres[t].1);
            if k == e.0 {
                assert(apres[i as int].0.0 == k);
                assert(lww(apres)[apres[i as int].0.0] == apres[i as int].1);
                if t != i {
                    if t < i {
                        assert(apres[t].0.0 < apres[i as int].0.0);
                    } else {
                        assert(apres[i as int].0.0 < apres[t].0.0);
                    }
                }
            } else {
                if trouve {
                    assert(avant[t] == apres[t]);
                    assert(lww(avant)[avant[t].0.0] == avant[t].1);
                } else if t < i {
                    assert(avant[t] == apres[t]);
                    assert(lww(avant)[avant[t].0.0] == avant[t].1);
                } else {
                    assert(avant[t - 1] == apres[t]);
                    assert(lww(avant)[avant[t - 1].0.0] == avant[t - 1].1);
                }
            }
        }
        assert(lww(apres) =~= cible);
    }
}

/// Forme canonique du contenu d'un journal : triee par entite, une paire
/// par entite, la derniere ecriture de chacune.
pub fn assembler<P: Copy>(journal: &Vec<(EntityId, P)>) -> (r: Vec<(EntityId, P)>)
    ensures
        canonique(r@, lww(journal@)),
{
    let mut out: Vec<(EntityId, P)> = Vec::with_capacity(journal.len());
    let mut i: usize = 0;
    while i < journal.len()
        invariant
            i <= journal.len(),
            trie_strict(out@),
            lww(out@) == lww(journal@.take(i as int)),
        decreases journal.len() - i,
    {
        let (e, p) = journal[i];
        inserer_lww(&mut out, e, p);
        proof {
            assert(journal@.take(i as int + 1).drop_last() =~= journal@.take(i as int));
        }
        i = i + 1;
    }
    proof {
        assert(journal@.take(journal.len() as int) =~= journal@);
    }
    out
}

} // verus!
