# chronotope

Substrat de stockage spatio-temporel a horizon scelle, ecrit en Verus.

L'unite de stockage est le chronotope : l'etat de toutes les entites d'une
cellule a un tick. Ouvert, il accepte des ecritures (la derniere ecriture de
chaque entite gagne) ; scelle, il est immuable et toute ecriture est refusee.

## Organisation

- `src/` : la bibliotheque verifiee.
  - `types`, `canonique`, `store` : identifiants, forme canonique d'un
    chronotope, contrat commun des magasins et ses lois.
  - `engine` (anneau de ticks par cellule), `naive` (table a lignes),
    `double` (magasin en memoire) : trois magasins qui respectent le meme
    contrat ; `diffusion` pousse les sceaux aux abonnes ; `cle` empaquete
    `(salle, tick, cellule)` sur 128 bits.
  - `directory` (annuaire a hysteresis en ticks), `routage` (annuaire a
    hysteresis en tentatives), `topologie`, `cadence` : migration et
    degradation par cellule.
  - `serveur`, `metriques`, `texte` : decisions de la frontiere HTTP
    (authentification, domaine, liste de cellules, issue d'une requete) et
    texte d'exposition Prometheus.
- `tests/` : scenarios executables.
- `app/` : le serveur HTTP (axum, tokio) qui branche ces decisions sur le
  reseau, et ce qui se calcule en virgule flottante.
