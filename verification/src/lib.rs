//! ChronotopeDB : substrat de stockage spatio-temporel a horizon scelle.
//!
//! L'unite de stockage est le couple (cellule, tick) : un chronotope porte
//! l'etat de toutes les entites d'une cellule a un tick donne. Ouvert, il
//! accepte des ecritures (registre dernier-ecrivain-gagne par entite) ;
//! scelle, il est immuable et toute ecriture ulterieure est rejetee.

pub mod types;
pub mod canonique;
pub mod canal;
pub mod diffusion;
pub mod store;
pub mod engine;
pub mod naive;
pub mod double;
pub mod directory;
pub mod routage;
pub mod topologie;
pub mod cadence;
pub mod serveur;
pub mod texte;
pub mod metriques;
pub mod cle;
