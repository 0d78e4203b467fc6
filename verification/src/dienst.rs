//! Wo der Dienst seine Daten haelt.

use vstd::prelude::*;

use crate::medien::{pfad_verbinden, verbunden};

verus! {

/// Der Name, unter dem sich der Dienst beim Hauptgeraet als Zweitgeraet
/// meldet.
pub const GERAETENAME: &'static str = "Fluesterwind (N9)";

/// Das Datenverzeichnis unter dem Heimatverzeichnis `heim`.
pub fn datenverzeichnis(heim: &str) -> (r: String)
    ensures
        r@ == verbunden(heim@, ".local/share/harbour/fluesterwind"@),
{
    pfad_verbinden(heim, ".local/share/harbour/fluesterwind")
}

/// Die Adresse der SQLite-Datenbank im Datenverzeichnis; `mode=rwc` legt
/// die Datei an, wenn sie fehlt.
pub fn datenbank_adresse(verzeichnis: &str) -> (r: String)
    ensures
        r@ == "sqlite://"@ + verzeichnis@ + "/signal.db?mode=rwc"@,
{
    let mut r = String::from_str("sqlite://");
    r.append(verzeichnis);
    r.append("/signal.db?mode=rwc");
    r
}

} // verus!
