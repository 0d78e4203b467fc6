use fluesterwind::http::{
    antwort, befehl_quittung, pfad_aus_url, qr_antwort, qr_bild, verknuepfen_anfragen, weg_bestimmen, Fall, Weg,
};
use fluesterwind::zustand::Lage;

#[test]
fn wege_ohne_abfrage() {
    assert_eq!(weg_bestimmen("/status"), Weg::Status);
    assert_eq!(weg_bestimmen("/status?x=1"), Weg::Status);
    assert_eq!(weg_bestimmen("/pair"), Weg::Verknuepfen);
    assert_eq!(weg_bestimmen("/pair/qr?t=17"), Weg::QrBild);
    assert_eq!(weg_bestimmen("/quit"), Weg::Beenden);
    assert_eq!(weg_bestimmen("/"), Weg::Unbekannt);
    assert_eq!(weg_bestimmen("/statusx"), Weg::Unbekannt);
    assert_eq!(pfad_aus_url("/a?b?c"), "/a");
}

#[test]
fn feste_antworten() {
    assert_eq!(antwort(Fall::ZustandGesperrt), (500, r#"{"error":"Zustand gesperrt"}"#.to_string()));
    assert_eq!(antwort(Fall::SchonVerknuepft), (409, r#"{"error":"schon verknuepft"}"#.to_string()));
    assert_eq!(antwort(Fall::Unbekannt), (404, r#"{"error":"unbekannt"}"#.to_string()));
    assert_eq!(befehl_quittung(true), (200, r#"{"ok":true}"#.to_string()));
    assert_eq!(
        befehl_quittung(false),
        (500, r#"{"error":"Signal-Seite antwortet nicht"}"#.to_string())
    );
}

#[test]
fn verknuepfen_nur_wenn_nicht_verknuepft() {
    let mut l = Lage::neu();
    assert!(verknuepfen_anfragen(&mut l));
    assert_eq!(l.state, "pairing");
    l.verknuepft(None);
    assert!(!verknuepfen_anfragen(&mut l));
    assert_eq!(l.state, "connected");
}

#[test]
fn qr_ohne_adresse() {
    assert_eq!(qr_antwort(""), Err((404, r#"{"error":"keine Adresse"}"#.to_string())));
}

#[test]
fn qr_als_png() {
    let png = qr_antwort("sgnl://linkdevice?uuid=abc&pub_key=xyz").unwrap();
    assert_eq!(&png[..8], &[0x89, b'P', b'N', b'G', 0x0d, 0x0a, 0x1a, 0x0a]);
    assert!(png.len() > 100);
}

#[test]
fn qr_zu_lang() {
    assert!(qr_bild(&"x".repeat(5000)).is_none());
}

#[test]
fn qr_mindestens_420_punkte() {
    let png = fluesterwind::http::qr_bild("sgnl://linkdevice?uuid=1").unwrap();
    let breite = u32::from_be_bytes([png[16], png[17], png[18], png[19]]);
    let hoehe = u32::from_be_bytes([png[20], png[21], png[22], png[23]]);
    assert!(breite >= 420);
    assert!(hoehe >= 420);
}

#[test]
fn qr_haengt_am_text() {
    let a = qr_bild("sgnl://linkdevice?uuid=1").unwrap();
    let b = qr_bild("sgnl://linkdevice?uuid=2").unwrap();
    assert_ne!(a, b);
    assert_eq!(qr_bild("sgnl://linkdevice?uuid=1").unwrap(), a);
    assert_eq!(qr_antwort("sgnl://linkdevice?uuid=1").unwrap(), a);
}
