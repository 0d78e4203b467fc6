//! Der Unterbau des Signal-Dienstes: Kennungen, der Schnappschuss der
//! Unterhaltungen, der Zustand des Verknuepfens, die Regeln fuer Anhaenge
//! und die Entscheidungen der HTTP-Schnittstelle.

pub mod text;
pub mod kennung;
pub mod zustand;
pub mod schnappschuss;
pub mod medien;
pub mod http;
pub mod dienst;
