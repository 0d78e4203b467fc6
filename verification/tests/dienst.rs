use fluesterwind::dienst::{datenbank_adresse, datenverzeichnis, GERAETENAME};

#[test]
fn datenverzeichnis_unter_heim() {
    assert_eq!(datenverzeichnis("/home/user"), "/home/user/.local/share/harbour/fluesterwind");
    assert_eq!(
        datenbank_adresse("/home/user/.local/share/harbour/fluesterwind"),
        "sqlite:///home/user/.local/share/harbour/fluesterwind/signal.db?mode=rwc"
    );
    assert_eq!(GERAETENAME, "Fluesterwind (N9)");
}
