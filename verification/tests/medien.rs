use fluesterwind::medien::{
    art, ausweichpfad, avatar_pfad, beschreibung, endung, endung_fuer, mime_aus_endung, mime_aus_pfad,
    pfad_verbinden, sauberer_name, sauberer_name_moeglich, sauberer_name_pruefen, zielordner, Anhang,
};

#[test]
fn art_nach_obertyp() {
    assert_eq!(art("image/png"), "image");
    assert_eq!(art("video/mp4"), "video");
    assert_eq!(art("audio/ogg; codecs=opus"), "audio");
    assert_eq!(art("application/pdf"), "document");
    assert_eq!(art("imagex/png"), "document");
    assert_eq!(art(""), "document");
}

#[test]
fn zielordner_unter_mydocs() {
    assert_eq!(zielordner("/home/user", "image/jpeg"), "/home/user/MyDocs/Pictures/Fluesterwind");
    assert_eq!(zielordner("/home/user/", "video/3gpp"), "/home/user/MyDocs/Videos/Fluesterwind");
    assert_eq!(zielordner("/home/user", "audio/aac"), "/home/user/MyDocs/Music/Fluesterwind");
    assert_eq!(zielordner("/home/user", "text/plain"), "/home/user/MyDocs/Documents/Fluesterwind");
}

#[test]
fn pfade_verbinden_wie_pathbuf() {
    assert_eq!(pfad_verbinden("", "a"), "a");
    assert_eq!(pfad_verbinden("/x/", "a"), "/x/a");
    assert_eq!(pfad_verbinden("/x", "a/b"), "/x/a/b");
    assert_eq!(pfad_verbinden("/x", "/abs"), "/abs");
    assert_eq!(pfad_verbinden("x", ""), "x/");
}

#[test]
fn endung_ohne_parameter() {
    assert_eq!(endung("audio/ogg; codecs=opus"), "ogg");
    assert_eq!(endung("audio/ogg"), "ogg");
}

#[test]
fn endung_aus_der_tabelle() {
    assert_eq!(endung(" IMAGE/JPEG "), "jpg");
    assert_eq!(endung("video/3gpp"), "3gp");
    assert_eq!(endung("audio/mpeg"), "mp3");
    assert_eq!(endung("text/plain;charset=utf-8"), "txt");
}

#[test]
fn endung_aus_dem_untertyp() {
    assert_eq!(endung("application/zip"), "zip");
    assert_eq!(endung("a/b/c"), "b");
    assert_eq!(endung("Application/X-Foo"), "bin");
    assert_eq!(endung("text"), "bin");
    assert_eq!(endung("video/"), "bin");
    assert_eq!(endung(""), "bin");
    assert_eq!(endung_fuer("image/heic"), "heic");
}

#[test]
fn sauberer_name_ersetzt_unzulaessiges() {
    assert_eq!(sauberer_name("Bild:1?.png", "image/png", 5), "Bild_1_.png");
    assert_eq!(sauberer_name("a/b\\c*d\"e<f>g|h.txt", "", 0), "a_b_c_d_e_f_g_h.txt");
    assert_eq!(sauberer_name("a\tb", "", 1), "a_b.bin");
}

#[test]
fn sauberer_name_ergaenzt() {
    assert_eq!(sauberer_name("  ", "image/jpeg", 1700000000), "signal-1700000000.jpg");
    assert_eq!(sauberer_name("", "audio/ogg; codecs=opus", 0), "signal-0.ogg");
    assert_eq!(sauberer_name(" bericht ", "application/pdf", 1), "bericht.pdf");
}

#[test]
fn sauberer_name_gekuerzt() {
    let lang = format!("{}.txt", "x".repeat(130));
    assert_eq!(sauberer_name(&lang, "text/plain", 1), "x".repeat(120));
    let umlaute = "\u{e4}".repeat(70);
    let r = sauberer_name(&umlaute, "", 1);
    assert_eq!(r, "\u{e4}".repeat(60));
    assert_eq!(r.len(), 120);
}

#[test]
fn mime_aus_der_endung() {
    assert_eq!(mime_aus_pfad("/tmp/Foto.JPG"), "image/jpeg");
    assert_eq!(mime_aus_pfad("stimme.m4a"), "audio/aac");
    assert_eq!(mime_aus_pfad("a/b.oga"), "audio/ogg");
    assert_eq!(mime_aus_pfad("ohne"), "application/octet-stream");
    assert_eq!(mime_aus_pfad(".profile"), "application/octet-stream");
    assert_eq!(mime_aus_endung("pdf"), "application/pdf");
    assert_eq!(mime_aus_endung("PDF"), "application/octet-stream");
}

#[test]
fn endung_und_mime_passen() {
    for m in ["image/jpeg", "image/png", "video/3gpp", "audio/mpeg", "text/plain"] {
        assert_eq!(mime_aus_endung(&endung(m)), m);
    }
}

#[test]
fn avatar_im_datenverzeichnis() {
    assert_eq!(
        avatar_pfad("/home/user", "c:+49 151"),
        "/home/user/.local/share/harbour/fluesterwind/avatare/c__49_151.jpg"
    );
}

#[test]
fn ausweichen_mit_zeit() {
    assert_eq!(ausweichpfad("/o", "/o/foto.jpg", 5), "/o/foto-5.jpg");
    assert_eq!(ausweichpfad("/o", "/o/README", 7), "/o/README-7.bin");
    assert_eq!(ausweichpfad("/o/", "/o/a.tar.gz", 12), "/o/a.tar-12.gz");
}

#[test]
fn beschreibung_mit_luecken() {
    let voll = Anhang {
        content_type: Some("image/png".to_string()),
        file_name: Some("x.png".to_string()),
        size: Some(4096),
    };
    assert_eq!(beschreibung(&voll), ("image/png".to_string(), "x.png".to_string(), 4096));
    let leer = Anhang { content_type: None, file_name: None, size: None };
    assert_eq!(beschreibung(&leer), (String::new(), String::new(), 0));
}

#[test]
fn kuerzen_nur_an_zeichengrenzen() {
    assert!(sauberer_name_moeglich("bericht", "application/pdf", 1));
    assert!(sauberer_name_moeglich(&"\u{e4}".repeat(70), "", 1));
    assert!(!sauberer_name_moeglich(&format!("a{}", "\u{e4}".repeat(70)), "", 1));
}

#[test]
fn pruefen_statt_abbrechen() {
    assert_eq!(sauberer_name_pruefen("a.b", "", 1), Some("a.b".to_string()));
    assert_eq!(sauberer_name_pruefen(&format!("a{}", "\u{e4}".repeat(70)), "", 1), None);
}

#[test]
fn leerraum_um_den_typ_aendert_die_endung_nicht() {
    assert_eq!(endung("  image/png \t"), "png");
    assert_eq!(endung("\u{a0}audio/ogg ; codecs=opus"), "ogg");
}

#[test]
fn bereinigter_name_bleibt_bei_erneutem_bereinigen() {
    let n = sauberer_name(" Bild: a?b ", "image/png", 7);
    assert_eq!(n, "Bild_ a_b.png");
    assert_eq!(sauberer_name(&n, "text/plain", 9), n);
    let leer = sauberer_name("  ", "image/jpeg", 42);
    assert_eq!(leer, "signal-42.jpg");
    assert_eq!(sauberer_name(&leer, "video/mp4", 1), leer);
}
