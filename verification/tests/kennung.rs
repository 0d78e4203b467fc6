use fluesterwind::kennung::{gruppenschluessel, gruppenschluessel_pruefen, ist_gruppe, kennung_gruppe, kennung_person};

#[test]
fn person_bekommt_vorsatz_c() {
    assert_eq!(kennung_person("0815-abc"), "c:0815-abc");
    assert_eq!(kennung_person(""), "c:");
}

#[test]
fn gruppe_in_kleinem_hex() {
    assert_eq!(kennung_gruppe(&[0x00, 0x0f, 0xab, 0xff]), "g:000fabff");
    assert_eq!(kennung_gruppe(&[]), "g:");
}

#[test]
fn vorsatz_entscheidet_ueber_gruppe() {
    assert!(ist_gruppe("g:00"));
    assert!(ist_gruppe("g:"));
    assert!(!ist_gruppe("c:g:00"));
    assert!(!ist_gruppe("g"));
    assert!(!ist_gruppe(""));
    assert!(!ist_gruppe(&kennung_person("g:abc")));
    assert!(ist_gruppe(&kennung_gruppe(&[1, 2, 3])));
}

#[test]
fn schluessel_rueckweg() {
    let schluessel: Vec<u8> = (0..=255).collect();
    assert_eq!(gruppenschluessel(&kennung_gruppe(&schluessel)), Some(schluessel));
    assert_eq!(gruppenschluessel("g:"), Some(vec![]));
}

#[test]
fn schluessel_abgewiesen() {
    assert_eq!(gruppenschluessel("c:00"), None);
    assert_eq!(gruppenschluessel("g:0"), None);
    assert_eq!(gruppenschluessel("g:zz"), None);
    assert_eq!(gruppenschluessel("g:00z1"), None);
    assert_eq!(gruppenschluessel("g:-1"), None);
    assert_eq!(gruppenschluessel("g:\u{e9}"), None);
    assert_eq!(gruppenschluessel(""), None);
}

#[test]
fn schluessel_liest_wie_from_str_radix() {
    assert_eq!(gruppenschluessel("g:AbcD"), Some(vec![0xab, 0xcd]));
    assert_eq!(gruppenschluessel("g:+a10"), Some(vec![0x0a, 0x10]));
}

#[test]
fn schluessel_pruefen_fuer_jede_kennung() {
    assert_eq!(gruppenschluessel_pruefen("g:ab"), Some(Some(vec![0xab])));
    assert_eq!(gruppenschluessel_pruefen("c:ab"), Some(None));
    assert_eq!(gruppenschluessel_pruefen("g:zz"), Some(None));
    assert_eq!(gruppenschluessel_pruefen("g:0\u{e9}1"), None);
    assert_eq!(gruppenschluessel_pruefen("g:\u{e9}"), Some(None));
}
