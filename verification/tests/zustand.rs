use fluesterwind::zustand::Lage;

#[test]
fn anfangszustand() {
    let l = Lage::neu();
    assert!(!l.paired);
    assert!(!l.connected);
    assert_eq!(l.pair_url, "");
    assert_eq!(l.phone, "");
    assert_eq!(l.last_error, "");
    assert_eq!(l.state, "idle");
}

#[test]
fn adresse_loescht_fehler() {
    let mut l = Lage::neu();
    l.fehler_setzen("kaputt".to_string());
    assert_eq!(l.state, "error");
    assert_eq!(l.last_error, "kaputt");
    l.adresse_setzen("sgnl://linkdevice?uuid=1".to_string());
    assert_eq!(l.pair_url, "sgnl://linkdevice?uuid=1");
    assert_eq!(l.state, "pairing");
    assert_eq!(l.last_error, "");
}

#[test]
fn verknuepft_leert_adresse() {
    let mut l = Lage::neu();
    l.adresse_setzen("sgnl://x".to_string());
    l.verknuepft(Some("+4915112345".to_string()));
    assert!(l.paired);
    assert_eq!(l.pair_url, "");
    assert_eq!(l.state, "connected");
    assert_eq!(l.phone, "+4915112345");
    l.verknuepft(None);
    assert_eq!(l.phone, "+4915112345");
}

#[test]
fn verbunden_setzen_nur_an_aendert_zustand() {
    let mut l = Lage::neu();
    l.verbunden_setzen(false);
    assert!(!l.connected);
    assert_eq!(l.state, "idle");
    l.verbunden_setzen(true);
    assert!(l.connected);
    assert_eq!(l.state, "connected");
}

#[test]
fn uebernehmen_verknuepft_und_verbindet() {
    let mut l = Lage::neu();
    l.fehler_setzen("alt".to_string());
    l.uebernehmen(None);
    assert!(l.paired);
    assert!(l.connected);
    assert_eq!(l.state, "connected");
    assert_eq!(l.last_error, "");
}
