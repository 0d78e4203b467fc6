//! Die Entscheidungen der HTTP-Schnittstelle: welcher Weg gemeint ist, was
//! geantwortet wird, und das Bild des QR-Codes zum Verknuepfen.

use vstd::prelude::*;
use vstd::string::*;

use image::ImageEncoder;

use crate::text::{aus_zeichen, bis_zeichen, erste_stelle, gleich, zeichen_von};
use crate::zustand::{Lage, LageSicht};

verus! {

/// Was die HTTP-Seite der Signal-Seite auftragen kann.
pub enum Befehl {
    Verknuepfen,
}

/// Die Wege der Schnittstelle.
#[derive(Debug, Clone, Copy, PartialEq, Eq)]
pub enum Weg {
    /// `/pair/qr`: die Verknuepfungsadresse als PNG.
    QrBild,
    /// `/status`: die Lage als JSON.
    Status,
    /// `/pair`: das Verknuepfen anstossen.
    Verknuepfen,
    /// `/quit`: den Dienst beenden.
    Beenden,
    /// Alles andere.
    Unbekannt,
}

/// Die festen Antworten der Schnittstelle.
#[derive(Debug, Clone, Copy, PartialEq, Eq)]
pub enum Fall {
    /// Der geteilte Zustand ist nicht zu sperren.
    ZustandGesperrt,
    /// Das Konto ist schon verknuepft.
    SchonVerknuepft,
    /// Der Befehl kam bei der Signal-Seite nicht an.
    SignalStumm,
    /// Das Verknuepfen ist angestossen.
    Angenommen,
    /// Es gibt keine Adresse, die sich als QR-Code zeigen liesse.
    KeineAdresse,
    /// Der Weg ist unbekannt.
    Unbekannt,
}

/// Der Weg zu einem Pfad ohne Abfrageteil.
pub open spec fn weg_spec(pfad: Seq<char>) -> Weg {
    if pfad == "/pair/qr"@ {
        Weg::QrBild
    } else if pfad == "/status"@ {
        Weg::Status
    } else if pfad == "/pair"@ {
        Weg::Verknuepfen
    } else if pfad == "/quit"@ {
        Weg::Beenden
    } else {
        Weg::Unbekannt
    }
}

/// Statuscode und JSON-Koerper zu einem Fall.
pub open spec fn antwort_spec(f: Fall) -> (u16, Seq<char>) {
    match f {
        Fall::ZustandGesperrt => (500, "{\"error\":\"Zustand gesperrt\"}"@),
        Fall::SchonVerknuepft => (409, "{\"error\":\"schon verknuepft\"}"@),
        Fall::SignalStumm => (500, "{\"error\":\"Signal-Seite antwortet nicht\"}"@),
        Fall::Angenommen => (200, "{\"ok\":true}"@),
        Fall::KeineAdresse => (404, "{\"error\":\"keine Adresse\"}"@),
        Fall::Unbekannt => (404, "{\"error\":\"unbekannt\"}"@),
    }
}

/// Der Pfad einer angefragten Adresse: alles vor dem ersten `?`.
pub fn pfad_aus_url(url: &str) -> (r: String)
    ensures
        r@ == bis_zeichen(url@, '?'),
{
    let z = zeichen_von(url);
    let s = erste_stelle(&z, 0, '?');
    assert(z@.skip(0) =~= z@);
    aus_zeichen(&z, 0, s)
}

/// Welcher Weg mit einer angefragten Adresse gemeint ist.
pub fn weg_bestimmen(url: &str) -> (r: Weg)
    ensures
        r == weg_spec(bis_zeichen(url@, '?')),
{
    let pfad = pfad_aus_url(url);
    let p = pfad.as_str();
    if gleich(p, "/pair/qr") {
        Weg::QrBild
    } else if gleich(p, "/status") {
        Weg::Status
    } else if gleich(p, "/pair") {
        Weg::Verknuepfen
    } else if gleich(p, "/quit") {
        Weg::Beenden
    } else {
        Weg::Unbekannt
    }
}

/// Statuscode und JSON-Koerper zu einem Fall.
pub fn antwort(f: Fall) -> (r: (u16, String))
    ensures
        r.0 == antwort_spec(f).0,
        r.1@ == antwort_spec(f).1,
{
    match f {
        Fall::ZustandGesperrt => (500, String::from_str("{\"error\":\"Zustand gesperrt\"}")),
        Fall::SchonVerknuepft => (409, String::from_str("{\"error\":\"schon verknuepft\"}")),
        Fall::SignalStumm => (500, String::from_str("{\"error\":\"Signal-Seite antwortet nicht\"}")),
        Fall::Angenommen => (200, String::from_str("{\"ok\":true}")),
        Fall::KeineAdresse => (404, String::from_str("{\"error\":\"keine Adresse\"}")),
        Fall::Unbekannt => (404, String::from_str("{\"error\":\"unbekannt\"}")),
    }
}

/// Eine Anfrage auf `/pair`: ist das Konto schon verknuepft, bleibt alles,
/// wie es ist, und es gibt nichts zu tun; sonst ist der Zustand `pairing`
/// und der Befehl zum Verknuepfen ist zu senden.
pub fn verknuepfen_anfragen(lage: &mut Lage) -> (senden: bool)
    ensures
        senden == !old(lage)@.paired,
        final(lage)@ == if senden {
            LageSicht { state: "pairing"@, ..old(lage)@ }
        } else {
            old(lage)@
        },
{
    if lage.paired {
        false
    } else {
        lage.state = String::from_str("pairing");
        true
    }
}

/// Die Antwort, nachdem der Befehl zum Verknuepfen gesendet werden sollte.
pub fn befehl_quittung(gesendet: bool) -> (r: (u16, String))
    ensures
        r.0 == antwort_spec(if gesendet { Fall::Angenommen } else { Fall::SignalStumm }).0,
        r.1@ == antwort_spec(if gesendet { Fall::Angenommen } else { Fall::SignalStumm }).1,
{
    if gesendet {
        antwort(Fall::Angenommen)
    } else {
        antwort(Fall::SignalStumm)
    }
}

#[verifier::external_type_specification]
#[verifier::external_body]
pub struct ExImageError(image::ImageError);

/// Ob `qrcode::QrCode::new` diese Daten als QR-Code fassen kann.
pub uninterp spec fn qr_kodierbar(daten: Seq<u8>) -> bool;

/// Was `qrcode::QrCode::new` und `render::<Luma<u8>>()` mit `quiet_zone`,
/// `min_dimensions` und `build` fuer diese Daten malen: die Punkte (ein Byte
/// je Punkt, zeilenweise), Breite und Hoehe.
pub uninterp spec fn qr_raster(daten: Seq<u8>, min_breite: u32, min_hoehe: u32, ruhezone: bool) -> (Seq<u8>, u32, u32);

/// Was `PngEncoder::write_image` aus dem crate image fuer ein Graustufenbild
/// (ein Byte je Punkt) dieser Groesse schreibt, oder `None`, wenn es
/// scheitert.
pub uninterp spec fn png_kodiert(roh: Seq<u8>, breite: u32, hoehe: u32) -> Option<Seq<u8>>;

/// `qrcode::QrCode::new` (mittlere Fehlerkorrektur, kleinste passende
/// Version), dann `render::<image::Luma<u8>>()` mit `quiet_zone`,
/// `min_dimensions` und `build` aus dem crate qrcode: der Code zu den Daten
/// als Graustufenbild, mit vier Modulen Ruhezone, wenn `ruhezone` gilt.
///
/// Der Vertrag sagt: ein Bild gibt es genau dann, wenn `QrCode::new` die
/// Daten annimmt; es ist das benannte Raster zu den Daten; die Zahl der
/// Punkte ist Breite mal Hoehe (das Bild entsteht mit
/// `ImageBuffer::from_pixel` in genau dieser Groesse); Breite und Hoehe
/// sind mindestens die verlangten, weil `min_dimensions` die Modulgroesse
/// aus der Breite samt der vorher gesetzten Ruhezone aufrundet. Welche
/// Punkte dunkel sind, ist nicht gesagt.
#[verifier::external_body]
fn qr_malen(daten: &[u8], min_breite: u32, min_hoehe: u32, ruhezone: bool) -> (r: Option<(Vec<u8>, u32, u32)>)
    requires
        min_breite <= 4096,
        min_hoehe <= 4096,
    ensures
        r is Some <==> qr_kodierbar(daten@),
        r matches Some(t) ==> (t.0@, t.1, t.2) == qr_raster(daten@, min_breite, min_hoehe, ruhezone),
        r matches Some(t) ==> t.0@.len() == t.1 * t.2 && t.1 >= min_breite && t.2 >= min_hoehe,
{
    match qrcode::QrCode::new(daten) {
        Ok(code) => {
            let bild = code.render::<image::Luma<u8>>().quiet_zone(ruhezone).min_dimensions(
                min_breite,
                min_hoehe,
            ).build();
            let (breite, hoehe) = (bild.width(), bild.height());
            Some((bild.into_raw(), breite, hoehe))
        },
        Err(_) => None,
    }
}

/// `PngEncoder::write_image` aus dem crate image fuer ein Graustufenbild:
/// das PNG zu den Punkten. `write_image` bricht ab, wenn die Zahl der
/// Punkte nicht Breite mal Hoehe ist; das schliesst die Vorbedingung aus.
/// In einen `Vec` geschrieben scheitert es nur an Breite oder Hoehe null
/// (der PNG-Kopf weist sie ab).
#[verifier::external_body]
fn png_schreiben(roh: &[u8], breite: u32, hoehe: u32) -> (r: Result<Vec<u8>, image::ImageError>)
    requires
        roh@.len() == breite as int * hoehe as int,
    ensures
        match r {
            Ok(v) => png_kodiert(roh@, breite, hoehe) == Some(v@),
            Err(_) => png_kodiert(roh@, breite, hoehe) is None,
        },
        breite > 0 && hoehe > 0 ==> r is Ok,
{
    let mut aus: Vec<u8> = Vec::new();
    match image::codecs::png::PngEncoder::new(&mut aus).write_image(
        roh,
        breite,
        hoehe,
        image::ExtendedColorType::L8,
    ) {
        Ok(()) => Ok(aus),
        Err(e) => Err(e),
    }
}

/// Das Raster des QR-Codes zu den Daten: mindestens 420 Punkte breit und
/// hoch, mit Ruhezone.
pub open spec fn qr_raster_420(daten: Seq<u8>) -> (Seq<u8>, u32, u32) {
    qr_raster(daten, 420, 420, true)
}

/// Das PNG des QR-Codes zu den Daten.
pub open spec fn qr_png(daten: Seq<u8>) -> Option<Seq<u8>> {
    let t = qr_raster_420(daten);
    png_kodiert(t.0, t.1, t.2)
}

/// Malt einen Text als QR-Code in ein PNG, mit vier Modulen Rand und
/// mindestens 420 Punkten Breite und Hoehe, damit der Code auf den
/// Bildschirm des Geraets passt und jeder Scanner ihn findet.
///
/// `Some` genau dann, wenn der Text in einen QR-Code passt, und dann das
/// PNG des Rasters zu genau diesem Text.
pub fn qr_bild(text: &str) -> (r: Option<Vec<u8>>)
    ensures
        r is Some <==> qr_kodierbar(text.spec_bytes()),
        r matches Some(v) ==> qr_png(text.spec_bytes()) == Some(v@),
        r is Some ==> qr_raster_420(text.spec_bytes()).0.len() == qr_raster_420(text.spec_bytes()).1
            * qr_raster_420(text.spec_bytes()).2,
        r is Some ==> qr_raster_420(text.spec_bytes()).1 >= 420 && qr_raster_420(text.spec_bytes()).2 >= 420,
{
    match qr_malen(text.as_bytes(), 420, 420, true) {
        Some((roh, breite, hoehe)) => match png_schreiben(roh.as_slice(), breite, hoehe) {
            Ok(v) => Some(v),
            Err(_) => None,
        },
        None => None,
    }
}

/// Die Antwort auf `/pair/qr`: das Bild zur Verknuepfungsadresse, oder
/// `keine Adresse`, wenn sie leer ist oder nicht in einen QR-Code passt.
pub fn qr_antwort(adresse: &str) -> (r: Result<Vec<u8>, (u16, String)>)
    ensures
        r is Ok <==> adresse@.len() > 0 && qr_kodierbar(adresse.spec_bytes()),
        r matches Ok(v) ==> qr_png(adresse.spec_bytes()) == Some(v@),
        r matches Err(e) ==> e.0 == antwort_spec(Fall::KeineAdresse).0 && e.1@ == antwort_spec(
            Fall::KeineAdresse,
        ).1,
{
    let bild = qr_bild(adresse);
    if adresse.is_empty() {
        return Err(antwort(Fall::KeineAdresse));
    }
    match bild {
        Some(v) => Ok(v),
        None => Err(antwort(Fall::KeineAdresse)),
    }
}

} // verus!
