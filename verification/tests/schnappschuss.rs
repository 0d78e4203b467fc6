use fluesterwind::schnappschuss::{Nachricht, Schnappschuss};

fn nachricht(id: &str, jid: &str, text: &str, zeit: u64) -> Nachricht {
    Nachricht {
        id: id.to_string(),
        chat_jid: jid.to_string(),
        sender: "c:ich".to_string(),
        text: text.to_string(),
        from_me: false,
        timestamp: zeit,
    }
}

#[test]
fn erster_eintrag_legt_chat_an() {
    let mut s = Schnappschuss::default();
    assert_eq!(s.folge, 0);
    s.eintragen(nachricht("1", "g:0a", "hallo", 100), "Familie");
    let chats = s.chats();
    assert_eq!(chats.len(), 1);
    assert_eq!(chats[0].jid, "g:0a");
    assert_eq!(chats[0].name, "Familie");
    assert!(chats[0].is_group);
    assert_eq!(chats[0].last_message, "hallo");
    assert_eq!(chats[0].last_time, 100);
    assert_eq!(s.folge, 1);
    assert_eq!(s.verlauf("g:0a").len(), 1);
}

#[test]
fn doppelte_werden_abgewiesen() {
    let mut s = Schnappschuss::default();
    s.eintragen(nachricht("7", "c:anna", "eins", 5), "Anna");
    s.eintragen(nachricht("7", "c:anna", "eins", 5), "Anna");
    assert_eq!(s.folge, 1);
    assert_eq!(s.verlauf("c:anna").len(), 1);
    assert!(!s.chats()[0].is_group);
}

#[test]
fn verlauf_nach_zeit_geordnet() {
    let mut s = Schnappschuss::default();
    s.eintragen(nachricht("a", "c:b", "drei", 30), "");
    s.eintragen(nachricht("b", "c:b", "eins", 10), "");
    s.eintragen(nachricht("c", "c:b", "zwei", 20), "");
    s.eintragen(nachricht("d", "c:b", "zwei-b", 20), "");
    let v = s.verlauf("c:b");
    let ids: Vec<&str> = v.iter().map(|m| m.id.as_str()).collect();
    assert_eq!(ids, vec!["b", "c", "d", "a"]);
    assert_eq!(s.folge, 4);
}

#[test]
fn aeltere_nachricht_schreibt_chat_nicht_fort() {
    let mut s = Schnappschuss::default();
    s.eintragen(nachricht("1", "c:x", "neu", 50), "X");
    s.eintragen(nachricht("2", "c:x", "alt", 40), "");
    let c = &s.chats()[0];
    assert_eq!(c.last_message, "neu");
    assert_eq!(c.last_time, 50);
    assert_eq!(c.name, "X");
    assert_eq!(s.verlauf("c:x")[0].text, "alt");
}

#[test]
fn leerer_name_behaelt_alten() {
    let mut s = Schnappschuss::default();
    s.eintragen(nachricht("1", "c:x", "a", 1), "Xaver");
    s.eintragen(nachricht("2", "c:x", "b", 2), "");
    assert_eq!(s.chats()[0].name, "Xaver");
    s.eintragen(nachricht("3", "c:x", "c", 3), "X.");
    assert_eq!(s.chats()[0].name, "X.");
}

#[test]
fn chatliste_neueste_zuerst() {
    let mut s = Schnappschuss::default();
    s.eintragen(nachricht("1", "c:a", "a", 10), "A");
    s.eintragen(nachricht("2", "c:b", "b", 30), "B");
    s.eintragen(nachricht("3", "c:c", "c", 20), "C");
    let namen: Vec<String> = s.chats().into_iter().map(|c| c.name).collect();
    assert_eq!(namen, vec!["B", "C", "A"]);
}

#[test]
fn umbenennen_zaehlt_nur_aenderungen() {
    let mut s = Schnappschuss::default();
    s.eintragen(nachricht("1", "c:a", "a", 10), "A");
    s.chatname_setzen("c:a", "A");
    assert_eq!(s.folge, 1);
    s.chatname_setzen("c:a", "Anton");
    assert_eq!(s.folge, 2);
    assert_eq!(s.chats()[0].name, "Anton");
    s.chatname_setzen("c:unbekannt", "Niemand");
    assert_eq!(s.folge, 2);
    assert_eq!(s.chats().len(), 1);
}

#[test]
fn unbekannter_verlauf_ist_leer() {
    let s = Schnappschuss::default();
    assert!(s.verlauf("c:keiner").is_empty());
    assert!(s.chats().is_empty());
}

#[test]
fn kopien_gleichen_der_vorlage() {
    let n = nachricht("9", "c:q", "t", 3);
    let k = n.kopie();
    assert_eq!(k.id, n.id);
    assert_eq!(k.timestamp, n.timestamp);
}

#[test]
fn doppelte_mit_neuem_namen_zaehlen_die_aenderung() {
    let mut s = Schnappschuss::default();
    s.eintragen(nachricht("7", "c:anna", "eins", 5), "Anna");
    s.eintragen(nachricht("7", "c:anna", "eins", 5), "Anna B.");
    assert_eq!(s.folge, 2);
    assert_eq!(s.chats()[0].name, "Anna B.");
    assert_eq!(s.verlauf("c:anna").len(), 1);
    s.eintragen(nachricht("7", "c:anna", "eins", 5), "");
    assert_eq!(s.folge, 2);
}

#[test]
fn verlauf_haelt_nur_die_eigene_unterhaltung() {
    let mut s = Schnappschuss::default();
    s.eintragen(nachricht("1", "c:a", "a", 10), "A");
    s.eintragen(nachricht("2", "c:b", "b", 5), "B");
    s.eintragen(nachricht("3", "c:a", "c", 7), "");
    let v = s.verlauf("c:a");
    assert_eq!(v.len(), 2);
    assert!(v.iter().all(|m| m.chat_jid == "c:a"));
    assert_eq!(v[0].id, "3");
}
