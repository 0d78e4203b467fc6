//! Anhaenge: wohin sie gehoeren, wie sie heissen, welche Art sie sind.
//!
//! Der Indexdienst des Geraets durchsucht nur MyDocs; deshalb landen
//! heruntergeladene Dateien dort, nach ihrer Art sortiert.

use vstd::prelude::*;

use crate::text::{
    aus_zeichen, beginnt_mit, beginnt_mit_von, bis_zeichen, breite, dezimal, dezimal_anhaengen, erste_stelle,
    gekuerzt, gleich, getrimmt, leerraum, lemma_bis_zeichen_anhang, lemma_bis_zeichen_davor, lemma_bis_zeichen_ohne,
    lemma_bis_zeichen_verkettet, lemma_dezimal_ziffern, lemma_gekuerzt, lemma_getrimmt_fest, lemma_getrimmt_raender,
    lemma_getrimmt_umrahmt, lemma_getrimmt_zeichen,
    nach_zeichen, nur_leerraum, trim_grenzen, utf8_laenge, zeichen_anhaengen, zeichen_von,
};

verus! {

/// Ein Pfad an einen anderen gehaengt, wie `PathBuf::join` unter Unix:
/// ein absoluter Teil ersetzt die Basis, sonst kommt ein `/` dazwischen,
/// wenn die Basis nicht leer ist und nicht schon auf `/` endet.
pub open spec fn verbunden(basis: Seq<char>, teil: Seq<char>) -> Seq<char> {
    if teil.len() > 0 && teil[0] == '/' {
        teil
    } else if basis.len() == 0 {
        teil
    } else if basis.last() == '/' {
        basis + teil
    } else {
        basis + seq!['/'] + teil
    }
}

/// Haengt einen Pfad an einen anderen.
pub fn pfad_verbinden(basis: &str, teil: &str) -> (r: String)
    ensures
        r@ == verbunden(basis@, teil@),
{
    let zt = zeichen_von(teil);
    if zt.len() > 0 && zt[0] == '/' {
        return teil.to_owned();
    }
    let zb = zeichen_von(basis);
    if zb.len() == 0 {
        return teil.to_owned();
    }
    let mut r = basis.to_owned();
    if zb[zb.len() - 1] != '/' {
        zeichen_anhaengen(&mut r, '/');
    }
    r.append(teil);
    r
}

/// Die grobe Art zu einem MIME-Typ.
pub open spec fn art_spec(mime: Seq<char>) -> Seq<char> {
    if beginnt_mit(mime, "image/"@) {
        "image"@
    } else if beginnt_mit(mime, "video/"@) {
        "video"@
    } else if beginnt_mit(mime, "audio/"@) {
        "audio"@
    } else {
        "document"@
    }
}

/// Das Unterverzeichnis von MyDocs zu einem MIME-Typ.
pub open spec fn unterordner_spec(mime: Seq<char>) -> Seq<char> {
    if beginnt_mit(mime, "image/"@) {
        "Pictures/Fluesterwind"@
    } else if beginnt_mit(mime, "video/"@) {
        "Videos/Fluesterwind"@
    } else if beginnt_mit(mime, "audio/"@) {
        "Music/Fluesterwind"@
    } else {
        "Documents/Fluesterwind"@
    }
}

/// Die grobe Art eines Anhangs, wie die Oberflaeche sie braucht.
pub fn art(mime: &str) -> (r: &'static str)
    ensures
        r@ == art_spec(mime@),
{
    if beginnt_mit_von(mime, "image/") {
        "image"
    } else if beginnt_mit_von(mime, "video/") {
        "video"
    } else if beginnt_mit_von(mime, "audio/") {
        "audio"
    } else {
        "document"
    }
}

/// Das Verzeichnis, in das ein Anhang dieses Typs gehoert: unter
/// `MyDocs` im Heimatverzeichnis `heim`.
pub fn zielordner(heim: &str, mime: &str) -> (r: String)
    ensures
        r@ == verbunden(verbunden(heim@, "MyDocs"@), unterordner_spec(mime@)),
{
    let wurzel = pfad_verbinden(heim, "MyDocs");
    let unter = if beginnt_mit_von(mime, "image/") {
        "Pictures/Fluesterwind"
    } else if beginnt_mit_von(mime, "video/") {
        "Videos/Fluesterwind"
    } else if beginnt_mit_von(mime, "audio/") {
        "Music/Fluesterwind"
    } else {
        "Documents/Fluesterwind"
    };
    pfad_verbinden(wurzel.as_str(), unter)
}

/// Ein Zeichen fuer den Dateinamen eines Profilbilds: Buchstaben und
/// Ziffern aus ASCII bleiben, alles andere wird `_`.
pub open spec fn avatar_zeichen(c: char) -> char {
    if ascii_alphanumerisch(c) {
        c
    } else {
        '_'
    }
}

/// Buchstabe oder Ziffer aus ASCII.
pub open spec fn ascii_alphanumerisch(c: char) -> bool {
    ('0' <= c <= '9') || ('a' <= c <= 'z') || ('A' <= c <= 'Z')
}

fn ist_ascii_alphanumerisch(c: char) -> (r: bool)
    ensures
        r == ascii_alphanumerisch(c),
{
    ('0' <= c && c <= '9') || ('a' <= c && c <= 'z') || ('A' <= c && c <= 'Z')
}

/// Wohin das Profilbild einer Unterhaltung kommt: ins Datenverzeichnis
/// unter `heim`, nicht nach MyDocs.
pub fn avatar_pfad(heim: &str, jid: &str) -> (r: String)
    ensures
        r@ == verbunden(
            verbunden(heim@, ".local/share/harbour/fluesterwind/avatare"@),
            jid@.map_values(|c: char| avatar_zeichen(c)) + ".jpg"@,
        ),
{
    let z = zeichen_von(jid);
    let mut sicher = String::new();
    let n = z.len();
    for i in 0..n
        invariant
            n == z@.len(),
            z@ == jid@,
            sicher@ == jid@.take(i as int).map_values(|c: char| avatar_zeichen(c)),
    {
        let c = z[i];
        let d = if ist_ascii_alphanumerisch(c) {
            c
        } else {
            '_'
        };
        zeichen_anhaengen(&mut sicher, d);
        assert(sicher@ =~= jid@.take(i + 1).map_values(|c: char| avatar_zeichen(c)));
    }
    assert(jid@.take(n as int) =~= jid@);
    sicher.append(".jpg");
    let basis = pfad_verbinden(heim, ".local/share/harbour/fluesterwind/avatare");
    pfad_verbinden(basis.as_str(), sicher.as_str())
}

/// Kleinschreibung, wie `str::to_lowercase` aus std sie liefert.
pub uninterp spec fn kleinschreibung(s: Seq<char>) -> Seq<char>;

/// `str::to_lowercase` aus std: die Zeichenkette nach den
/// Kleinbuchstaben-Regeln von Unicode. Der Vertrag nennt das Ergebnis nur;
/// die Regeln selbst legt er nicht fest.
#[verifier::external_body]
fn klein(s: &str) -> (r: String)
    ensures
        r@ == kleinschreibung(s@),
{
    s.to_lowercase()
}

/// Die Endungen der bekannten MIME-Typen.
pub open spec fn bekannte_endung(rein: Seq<char>) -> Option<Seq<char>> {
    if rein == "image/jpeg"@ {
        Some("jpg"@)
    } else if rein == "image/png"@ {
        Some("png"@)
    } else if rein == "image/gif"@ {
        Some("gif"@)
    } else if rein == "image/webp"@ {
        Some("webp"@)
    } else if rein == "video/mp4"@ {
        Some("mp4"@)
    } else if rein == "video/3gpp"@ {
        Some("3gp"@)
    } else if rein == "audio/mpeg"@ {
        Some("mp3"@)
    } else if rein == "audio/aac"@ {
        Some("aac"@)
    } else if rein == "audio/ogg"@ {
        Some("ogg"@)
    } else if rein == "audio/wav"@ {
        Some("wav"@)
    } else if rein == "application/pdf"@ {
        Some("pdf"@)
    } else if rein == "text/plain"@ {
        Some("txt"@)
    } else {
        None
    }
}

fn bekannte_endung_von(rein: &str) -> (r: Option<String>)
    ensures
        match r {
            Some(e) => bekannte_endung(rein@) == Some(e@),
            None => bekannte_endung(rein@) is None,
        },
{
    if gleich(rein, "image/jpeg") {
        return Some(String::from_str("jpg"));
    }
    if gleich(rein, "image/png") {
        return Some(String::from_str("png"));
    }
    if gleich(rein, "image/gif") {
        return Some(String::from_str("gif"));
    }
    if gleich(rein, "image/webp") {
        return Some(String::from_str("webp"));
    }
    if gleich(rein, "video/mp4") {
        return Some(String::from_str("mp4"));
    }
    if gleich(rein, "video/3gpp") {
        return Some(String::from_str("3gp"));
    }
    if gleich(rein, "audio/mpeg") {
        return Some(String::from_str("mp3"));
    }
    if gleich(rein, "audio/aac") {
        return Some(String::from_str("aac"));
    }
    if gleich(rein, "audio/ogg") {
        return Some(String::from_str("ogg"));
    }
    if gleich(rein, "audio/wav") {
        return Some(String::from_str("wav"));
    }
    if gleich(rein, "application/pdf") {
        return Some(String::from_str("pdf"));
    }
    if gleich(rein, "text/plain") {
        return Some(String::from_str("txt"));
    }
    None
}

/// Das zweite Stueck beim Teilen an `c`, wenn es eines gibt, wie
/// `split(c).nth(1)`.
pub open spec fn zweites_stueck(s: Seq<char>, c: char) -> Option<Seq<char>> {
    match nach_zeichen(s, c) {
        Some(rest) => Some(bis_zeichen(rest, c)),
        None => None,
    }
}

/// Die Endung zu einem bereinigten MIME-Typ: aus der Tabelle, sonst der
/// Untertyp, sofern er nur aus ASCII-Buchstaben und -Ziffern besteht, sonst
/// `bin`.
pub open spec fn endung_aus_rein(rein: Seq<char>) -> Seq<char> {
    match bekannte_endung(rein) {
        Some(e) => e,
        None => match zweites_stueck(rein, '/') {
            Some(u) => if u.len() > 0 && (forall|i: int| 0 <= i < u.len() ==> ascii_alphanumerisch(#[trigger] u[i])) {
                u
            } else {
                "bin"@
            },
            None => "bin"@,
        },
    }
}

/// Der MIME-Typ ohne Parameter, ohne Leerraum, klein geschrieben.
pub open spec fn rein_spec(mime: Seq<char>) -> Seq<char> {
    kleinschreibung(getrimmt(bis_zeichen(mime, ';')))
}

/// Die Endung zu einem MIME-Typ.
pub open spec fn endung_spec(mime: Seq<char>) -> Seq<char> {
    endung_aus_rein(rein_spec(mime))
}

/// Die Endung zu einem schon bereinigten MIME-Typ.
pub fn endung_fuer(rein: &str) -> (r: String)
    ensures
        r@ == endung_aus_rein(rein@),
{
    if let Some(e) = bekannte_endung_von(rein) {
        return e;
    }
    let z = zeichen_von(rein);
    let s = erste_stelle(&z, 0, '/');
    assert(z@.skip(0) =~= z@);
    if s == z.len() {
        return String::from_str("bin");
    }
    let t = erste_stelle(&z, s + 1, '/');
    let ghost u = z@.subrange(s + 1, t as int);
    assert(zweites_stueck(rein@, '/') == Some(u));
    if t == s + 1 {
        return String::from_str("bin");
    }
    let mut i = s + 1;
    while i < t
        invariant
            s + 1 <= i <= t <= z@.len(),
            u == z@.subrange(s + 1, t as int),
            bekannte_endung(rein@) is None,
            zweites_stueck(rein@, '/') == Some(u),
            forall|j: int| 0 <= j < i - (s + 1) ==> ascii_alphanumerisch(#[trigger] u[j]),
        decreases t - i,
    {
        if !ist_ascii_alphanumerisch(z[i]) {
            assert(!ascii_alphanumerisch(u[i - (s + 1)]));
            return String::from_str("bin");
        }
        i = i + 1;
    }
    aus_zeichen(&z, s + 1, t)
}

/// Eine Endung zum MIME-Typ. Parameter wie in `audio/ogg; codecs=opus`
/// werden abgeschnitten, bevor nachgeschlagen wird.
pub fn endung(mime: &str) -> (r: String)
    ensures
        r@ == endung_spec(mime@),
{
    let z = zeichen_von(mime);
    let s = erste_stelle(&z, 0, ';');
    assert(z@.skip(0) =~= z@);
    let vorn = aus_zeichen(&z, 0, s);
    let zv = zeichen_von(vorn.as_str());
    let (a, b) = trim_grenzen(&zv);
    let getrimmt_s = aus_zeichen(&zv, a, b);
    let rein = klein(getrimmt_s.as_str());
    endung_fuer(rein.as_str())
}

/// Ein Zeichen eines Dateinamens, wie ein VFAT-Dateisystem es annimmt:
/// `/ \ : * ? " < > |` und Steuerzeichen werden `_`.
pub open spec fn namenszeichen(c: char) -> char {
    if c == '/' || c == '\\' || c == ':' || c == '*' || c == '?' || c == '"' || c == '<' || c == '>' || c == '|'
        || (c as u32) < 32 {
        '_'
    } else {
        c
    }
}

fn namenszeichen_von(c: char) -> (r: char)
    ensures
        r == namenszeichen(c),
{
    if c == '/' || c == '\\' || c == ':' || c == '*' || c == '?' || c == '"' || c == '<' || c == '>' || c == '|'
        || (c as u32) < 32 {
        '_'
    } else {
        c
    }
}

/// Der bereinigte Name vor dem Kuerzen: unzulaessige Zeichen ersetzt,
/// Leerraum an den Enden entfernt; ein leerer Name wird `signal-` und die
/// Zeit, einer ohne Punkt bekommt die Endung zum MIME-Typ.
pub open spec fn name_ergaenzt(vorschlag: Seq<char>, mime: Seq<char>, zeit: u64) -> Seq<char> {
    let n = getrimmt(vorschlag.map_values(|c: char| namenszeichen(c)));
    if n.len() == 0 {
        "signal-"@ + dezimal(zeit) + "."@ + endung_spec(mime)
    } else if !n.contains('.') {
        n + "."@ + endung_spec(mime)
    } else {
        n
    }
}

/// Der Dateiname: hoechstens 120 Bytes, sonst abgeschnitten.
pub open spec fn sauberer_name_spec(vorschlag: Seq<char>, mime: Seq<char>, zeit: u64) -> Seq<char> {
    let n = name_ergaenzt(vorschlag, mime, zeit);
    if utf8_laenge(n) > 120 {
        gekuerzt(n, 120)
    } else {
        n
    }
}

fn breite_von(c: char) -> (r: usize)
    ensures
        r == breite(c),
{
    let u = c as u32;
    if u < 0x80 {
        1
    } else if u < 0x800 {
        2
    } else if u < 0x10000 {
        3
    } else {
        4
    }
}

fn name_ergaenzt_von(vorschlag: &str, mime: &str, zeit: u64) -> (r: String)
    ensures
        r@ == name_ergaenzt(vorschlag@, mime@, zeit),
{
    let z = zeichen_von(vorschlag);
    let mut m: Vec<char> = Vec::new();
    let n = z.len();
    for i in 0..n
        invariant
            n == z@.len(),
            z@ == vorschlag@,
            m@ == vorschlag@.take(i as int).map_values(|c: char| namenszeichen(c)),
    {
        m.push(namenszeichen_von(z[i]));
        assert(m@ =~= vorschlag@.take(i + 1).map_values(|c: char| namenszeichen(c)));
    }
    assert(vorschlag@.take(n as int) =~= vorschlag@);
    let (a, b) = trim_grenzen(&m);
    let ghost g = getrimmt(vorschlag@.map_values(|c: char| namenszeichen(c)));
    assert(m@.subrange(a as int, b as int) == g);
    let mut name = aus_zeichen(&m, a, b);
    if a == b {
        name = String::from_str("signal-");
        dezimal_anhaengen(&mut name, zeit);
        name.append(".");
        let e = endung(mime);
        name.append(e.as_str());
    } else {
        let mut i = a;
        let mut punkt = false;
        while i < b
            invariant
                a <= i <= b <= m@.len(),
                g == m@.subrange(a as int, b as int),
                punkt == exists|j: int| 0 <= j < i - a && #[trigger] g[j] == '.',
            decreases b - i,
        {
            if m[i] == '.' {
                assert(g[i - a] == '.');
                punkt = true;
            }
            i = i + 1;
        }
        if !punkt {
            proof {
                assert forall|j: int| 0 <= j < g.len() implies #[trigger] g[j] != '.' by {}
            }
            name.append(".");
            let e = endung(mime);
            name.append(e.as_str());
        } else {
            proof {
                let j = choose|j: int| 0 <= j < i - a && #[trigger] g[j] == '.';
                assert(g.contains('.'));
            }
        }
    }
    name
}

/// Ein Dateiname, der auf VFAT zulaessig ist.
///
/// Ausgeschlossen sind die Namen, bei denen die 120-Byte-Grenze mitten in
/// ein Zeichen fiele; dort bricht das Kuerzen ab.
pub fn sauberer_name(vorschlag: &str, mime: &str, zeit: u64) -> (r: String)
    requires
        utf8_laenge(name_ergaenzt(vorschlag@, mime@, zeit)) > 120 ==> utf8_laenge(
            gekuerzt(name_ergaenzt(vorschlag@, mime@, zeit), 120),
        ) == 120,
    ensures
        r@ == sauberer_name_spec(vorschlag@, mime@, zeit),
{
    let name = name_ergaenzt_von(vorschlag, mime, zeit);
    let zn = zeichen_von(name.as_str());
    let (i, _bytes) = kuerzen_bis(&zn, 120);
    proof {
        lemma_gekuerzt(zn@, 120);
        if i == zn@.len() {
            assert(zn@.take(i as int) =~= zn@);
        }
    }
    aus_zeichen(&zn, 0, i)
}

/// Wie viele Zeichen vorne in `max` Bytes passen, und wie viele Bytes sie
/// brauchen.
fn kuerzen_bis(zn: &Vec<char>, max: usize) -> (r: (usize, usize))
    ensures
        r.0 <= zn@.len(),
        gekuerzt(zn@, max as nat) == zn@.take(r.0 as int),
        r.1 == utf8_laenge(gekuerzt(zn@, max as nat)),
        r.0 < zn@.len() ==> utf8_laenge(zn@) > max,
{
    let len = zn.len();
    let mut i: usize = 0;
    let mut bytes: usize = 0;
    assert(zn@.skip(0) =~= zn@);
    assert(zn@.take(0) =~= Seq::<char>::empty());
    while i < len && breite_von(zn[i]) <= max - bytes
        invariant
            i <= len == zn@.len(),
            bytes <= max,
            gekuerzt(zn@, max as nat) == zn@.take(i as int) + gekuerzt(zn@.skip(i as int), (max - bytes) as nat),
            utf8_laenge(gekuerzt(zn@, max as nat)) == bytes + utf8_laenge(
                gekuerzt(zn@.skip(i as int), (max - bytes) as nat),
            ),
            utf8_laenge(zn@) == bytes + utf8_laenge(zn@.skip(i as int)),
        decreases len - i,
    {
        let w = breite_von(zn[i]);
        proof {
            let t = zn@.skip(i as int);
            assert(t.drop_first() =~= zn@.skip(i + 1));
            let rest = gekuerzt(zn@.skip(i + 1), (max - bytes - w) as nat);
            assert((seq![t[0]] + rest).drop_first() =~= rest);
            assert(zn@.take(i as int) + (seq![t[0]] + rest) =~= zn@.take(i + 1) + rest);
        }
        bytes = bytes + w;
        i = i + 1;
    }
    proof {
        if i < len {
            assert(gekuerzt(zn@.skip(i as int), (max - bytes) as nat) =~= Seq::<char>::empty());
            assert(zn@.take(i as int) + Seq::<char>::empty() =~= zn@.take(i as int));
            let t = zn@.skip(i as int);
            assert(t.drop_first() =~= zn@.skip(i + 1));
        } else {
            assert(zn@.skip(i as int) =~= Seq::<char>::empty());
            assert(zn@.take(i as int) =~= zn@);
        }
    }
    (i, bytes)
}

/// Der MIME-Typ zu einer (klein geschriebenen) Dateiendung.
pub open spec fn mime_aus_endung_spec(e: Seq<char>) -> Seq<char> {
    if e == "jpg"@ || e == "jpeg"@ {
        "image/jpeg"@
    } else if e == "png"@ {
        "image/png"@
    } else if e == "gif"@ {
        "image/gif"@
    } else if e == "webp"@ {
        "image/webp"@
    } else if e == "mp4"@ {
        "video/mp4"@
    } else if e == "3gp"@ {
        "video/3gpp"@
    } else if e == "mp3"@ {
        "audio/mpeg"@
    } else if e == "aac"@ || e == "m4a"@ {
        "audio/aac"@
    } else if e == "ogg"@ || e == "oga"@ {
        "audio/ogg"@
    } else if e == "wav"@ {
        "audio/wav"@
    } else if e == "pdf"@ {
        "application/pdf"@
    } else if e == "txt"@ {
        "text/plain"@
    } else {
        "application/octet-stream"@
    }
}

/// Der MIME-Typ zu einer klein geschriebenen Dateiendung.
pub fn mime_aus_endung(e: &str) -> (r: String)
    ensures
        r@ == mime_aus_endung_spec(e@),
{
    if gleich(e, "jpg") || gleich(e, "jpeg") {
        return String::from_str("image/jpeg");
    }
    if gleich(e, "png") {
        return String::from_str("image/png");
    }
    if gleich(e, "gif") {
        return String::from_str("image/gif");
    }
    if gleich(e, "webp") {
        return String::from_str("image/webp");
    }
    if gleich(e, "mp4") {
        return String::from_str("video/mp4");
    }
    if gleich(e, "3gp") {
        return String::from_str("video/3gpp");
    }
    if gleich(e, "mp3") {
        return String::from_str("audio/mpeg");
    }
    if gleich(e, "aac") || gleich(e, "m4a") {
        return String::from_str("audio/aac");
    }
    if gleich(e, "ogg") || gleich(e, "oga") {
        return String::from_str("audio/ogg");
    }
    if gleich(e, "wav") {
        return String::from_str("audio/wav");
    }
    if gleich(e, "pdf") {
        return String::from_str("application/pdf");
    }
    if gleich(e, "txt") {
        return String::from_str("text/plain");
    }
    String::from_str("application/octet-stream")
}

/// Was `Path::extension` aus std zu einem Pfad liefert.
pub uninterp spec fn pfad_endung(pfad: Seq<char>) -> Option<Seq<char>>;

/// Was `Path::file_stem` aus std zu einem Pfad liefert.
pub uninterp spec fn pfad_stamm(pfad: Seq<char>) -> Option<Seq<char>>;

/// `Path::extension` aus std, auf einen Pfad aus UTF-8 angewandt: die
/// Endung des letzten Bestandteils ohne den Punkt, wenn es eine gibt. Der
/// Vertrag nennt das Ergebnis nur; wie std den Pfad zerlegt, legt er nicht
/// fest.
#[verifier::external_body]
fn endung_des_pfads(pfad: &str) -> (r: Option<String>)
    ensures
        match r {
            Some(e) => pfad_endung(pfad@) == Some(e@),
            None => pfad_endung(pfad@) is None,
        },
{
    match std::path::Path::new(pfad).extension() {
        Some(e) => Some(e.to_string_lossy().into_owned()),
        None => None,
    }
}

/// `Path::file_stem` aus std, auf einen Pfad aus UTF-8 angewandt: der
/// letzte Bestandteil ohne seine Endung, wenn es einen gibt. Der Vertrag
/// nennt das Ergebnis nur.
#[verifier::external_body]
fn stamm_des_pfads(pfad: &str) -> (r: Option<String>)
    ensures
        match r {
            Some(e) => pfad_stamm(pfad@) == Some(e@),
            None => pfad_stamm(pfad@) is None,
        },
{
    match std::path::Path::new(pfad).file_stem() {
        Some(e) => Some(e.to_string_lossy().into_owned()),
        None => None,
    }
}

/// Die klein geschriebene Endung eines Pfades, leer, wenn er keine hat.
pub open spec fn kleine_endung(pfad: Seq<char>) -> Seq<char> {
    match pfad_endung(pfad) {
        Some(e) => kleinschreibung(e),
        None => Seq::empty(),
    }
}

/// MIME-Typ einer zu verschickenden Datei, aus ihrer Endung geraten.
pub fn mime_aus_pfad(pfad: &str) -> (r: String)
    ensures
        r@ == mime_aus_endung_spec(kleine_endung(pfad@)),
{
    let e = match endung_des_pfads(pfad) {
        Some(e) => klein(e.as_str()),
        None => String::new(),
    };
    mime_aus_endung(e.as_str())
}

/// Der Name, unter dem eine Datei abgelegt wird, wenn ihr Name im Ordner
/// schon vergeben ist: Stamm, `-`, die Zeit, `.` und die Endung (oder
/// `bin`).
pub open spec fn ausweichname(pfad: Seq<char>, zeit: u64) -> Seq<char> {
    let stamm = match pfad_stamm(pfad) {
        Some(s) => s,
        None => Seq::empty(),
    };
    let end = match pfad_endung(pfad) {
        Some(e) => e,
        None => "bin"@,
    };
    stamm + "-"@ + dezimal(zeit) + "."@ + end
}

/// Der Pfad im Ordner, auf den ausgewichen wird, wenn `pfad` schon
/// existiert. Ob er existiert, prueft der Aufrufer.
pub fn ausweichpfad(ordner: &str, pfad: &str, zeit: u64) -> (r: String)
    ensures
        r@ == verbunden(ordner@, ausweichname(pfad@, zeit)),
{
    let mut name = match stamm_des_pfads(pfad) {
        Some(s) => s,
        None => String::new(),
    };
    let end = match endung_des_pfads(pfad) {
        Some(e) => e,
        None => String::from_str("bin"),
    };
    name.append("-");
    dezimal_anhaengen(&mut name, zeit);
    name.append(".");
    name.append(end.as_str());
    pfad_verbinden(ordner, name.as_str())
}

/// Was die Signal-Seite ueber einen Anhang mitteilt, soweit es hier
/// gebraucht wird.
pub struct Anhang {
    pub content_type: Option<String>,
    pub file_name: Option<String>,
    pub size: Option<u32>,
}

/// Ein optionaler Text, leer, wenn er fehlt.
pub open spec fn oder_leer(s: Option<String>) -> Seq<char> {
    match s {
        Some(t) => t@,
        None => Seq::empty(),
    }
}

fn kopie_oder_leer(s: &Option<String>) -> (r: String)
    ensures
        r@ == oder_leer(*s),
{
    match s {
        Some(t) => t.clone(),
        None => String::new(),
    }
}

/// MIME-Typ, Name und Groesse eines Anhangs; was fehlt, ist leer oder null.
pub fn beschreibung(p: &Anhang) -> (r: (String, String, u64))
    ensures
        r.0@ == oder_leer(p.content_type),
        r.1@ == oder_leer(p.file_name),
        r.2 == match p.size {
            Some(g) => g as u64,
            None => 0,
        },
{
    let mime = kopie_oder_leer(&p.content_type);
    let name = kopie_oder_leer(&p.file_name);
    let groesse = match p.size {
        Some(g) => g as u64,
        None => 0,
    };
    (mime, name, groesse)
}

/// Parameter hinter einem `;` aendern die Endung nicht: `audio/ogg;
/// codecs=opus` bekommt dieselbe wie `audio/ogg`.
pub proof fn gesetz_parameter_abgeschnitten(mime: Seq<char>, parameter: Seq<char>)
    requires
        !mime.contains(';'),
    ensures
        endung_spec(mime + seq![';'] + parameter) == endung_spec(mime),
{
    lemma_bis_zeichen_verkettet(mime, ';', parameter);
    lemma_bis_zeichen_ohne(mime, ';');
}

/// Leerraum um den MIME-Typ aendert die Endung nicht: ` image/png ` bekommt
/// dieselbe wie `image/png`.
pub proof fn gesetz_leerraum_aussen(w1: Seq<char>, mime: Seq<char>, w2: Seq<char>)
    requires
        nur_leerraum(w1),
        nur_leerraum(w2),
    ensures
        endung_spec(w1 + mime + w2) == endung_spec(mime),
{
    assert(!w1.contains(';')) by {
        if w1.contains(';') {
            let j = choose|j: int| 0 <= j < w1.len() && w1[j] == ';';
            assert(leerraum(w1[j]));
        }
    }
    assert(!w2.contains(';')) by {
        if w2.contains(';') {
            let j = choose|j: int| 0 <= j < w2.len() && w2[j] == ';';
            assert(leerraum(w2[j]));
        }
    }
    assert(w1 + mime + w2 =~= w1 + (mime + w2));
    lemma_bis_zeichen_davor(w1, mime + w2, ';');
    lemma_bis_zeichen_anhang(mime, w2, ';');
    lemma_bis_zeichen_ohne(w2, ';');
    if mime.contains(';') {
        lemma_getrimmt_umrahmt(w1, bis_zeichen(mime, ';'), Seq::empty());
        assert(w1 + bis_zeichen(mime, ';') + Seq::<char>::empty() =~= w1 + bis_zeichen(mime, ';'));
    } else {
        lemma_bis_zeichen_ohne(mime, ';');
        lemma_getrimmt_umrahmt(w1, mime, w2);
        assert(w1 + (mime + w2) =~= w1 + mime + w2);
    }
}

/// Ein Dateiname braucht nie mehr als 120 Bytes.
pub proof fn gesetz_name_hoechstens_120(vorschlag: Seq<char>, mime: Seq<char>, zeit: u64)
    ensures
        utf8_laenge(sauberer_name_spec(vorschlag, mime, zeit)) <= 120,
{
    lemma_gekuerzt(name_ergaenzt(vorschlag, mime, zeit), 120);
}

/// Ein Zeichen, das in einem Dateinamen auf VFAT stehen darf.
pub open spec fn zulaessig(c: char) -> bool {
    namenszeichen(c) == c
}

proof fn lemma_endung_zulaessig(rein: Seq<char>)
    ensures
        forall|i: int| 0 <= i < endung_aus_rein(rein).len() ==> zulaessig(#[trigger] endung_aus_rein(rein)[i]),
{
    reveal_strlit("jpg");
    reveal_strlit("png");
    reveal_strlit("gif");
    reveal_strlit("webp");
    reveal_strlit("mp4");
    reveal_strlit("3gp");
    reveal_strlit("mp3");
    reveal_strlit("aac");
    reveal_strlit("ogg");
    reveal_strlit("wav");
    reveal_strlit("pdf");
    reveal_strlit("txt");
    reveal_strlit("bin");
    let r = endung_aus_rein(rein);
    if bekannte_endung(rein) is None {
        if let Some(u) = zweites_stueck(rein, '/') {
            if u.len() > 0 && (forall|i: int| 0 <= i < u.len() ==> ascii_alphanumerisch(#[trigger] u[i])) {
                assert forall|i: int| 0 <= i < r.len() implies zulaessig(#[trigger] r[i]) by {
                    assert(ascii_alphanumerisch(u[i]));
                }
            }
        }
    }
}

/// Ob `sauberer_name` fuer diese Eingaben ein Ergebnis hat: ob die
/// 120-Byte-Grenze, wenn sie greift, zwischen zwei Zeichen liegt.
pub fn sauberer_name_moeglich(vorschlag: &str, mime: &str, zeit: u64) -> (r: bool)
    ensures
        r == (utf8_laenge(name_ergaenzt(vorschlag@, mime@, zeit)) > 120 ==> utf8_laenge(
            gekuerzt(name_ergaenzt(vorschlag@, mime@, zeit), 120),
        ) == 120),
{
    let name = name_ergaenzt_von(vorschlag, mime, zeit);
    let zn = zeichen_von(name.as_str());
    let (i, bytes) = kuerzen_bis(&zn, 120);
    proof {
        lemma_gekuerzt(zn@, 120);
        if i == zn@.len() {
            assert(zn@.take(i as int) =~= zn@);
        }
    }
    i == zn.len() || bytes == 120
}

/// Der Dateiname, wenn er sich bilden laesst; `None`, wenn die
/// 120-Byte-Grenze mitten in ein Zeichen fiele.
pub fn sauberer_name_pruefen(vorschlag: &str, mime: &str, zeit: u64) -> (r: Option<String>)
    ensures
        match r {
            Some(n) => n@ == sauberer_name_spec(vorschlag@, mime@, zeit),
            None => utf8_laenge(name_ergaenzt(vorschlag@, mime@, zeit)) > 120 && utf8_laenge(
                gekuerzt(name_ergaenzt(vorschlag@, mime@, zeit), 120),
            ) != 120,
        },
{
    if sauberer_name_moeglich(vorschlag, mime, zeit) {
        Some(sauberer_name(vorschlag, mime, zeit))
    } else {
        None
    }
}

/// Ein bereinigter Dateiname enthaelt nichts, woran VFAT beim Anlegen
/// scheitert: kein `/ \ : * ? " < > |` und kein Steuerzeichen.
pub proof fn gesetz_name_zulaessig(vorschlag: Seq<char>, mime: Seq<char>, zeit: u64)
    ensures
        forall|i: int|
            0 <= i < sauberer_name_spec(vorschlag, mime, zeit).len() ==> zulaessig(
                #[trigger] sauberer_name_spec(vorschlag, mime, zeit)[i],
            ),
{
    let abgebildet = vorschlag.map_values(|c: char| namenszeichen(c));
    let n = getrimmt(abgebildet);
    let e = endung_spec(mime);
    lemma_endung_zulaessig(rein_spec(mime));
    lemma_dezimal_ziffern(zeit);
    reveal_strlit("signal-");
    reveal_strlit(".");
    assert forall|i: int| 0 <= i < n.len() implies zulaessig(#[trigger] n[i]) by {
        lemma_getrimmt_zeichen(abgebildet, i);
        let j = choose|j: int| 0 <= j < abgebildet.len() && abgebildet[j] == n[i];
        assert(abgebildet[j] == namenszeichen(vorschlag[j]));
    }
    let g = name_ergaenzt(vorschlag, mime, zeit);
    assert forall|i: int| 0 <= i < g.len() implies zulaessig(#[trigger] g[i]) by {
        if n.len() == 0 {
            let a = "signal-"@ + dezimal(zeit);
            let b = a + "."@;
            if i >= b.len() {
                assert(g[i] == e[i - b.len()]);
            } else if i >= a.len() {
                assert(g[i] == '.');
            } else if i >= 7 {
                assert(g[i] == dezimal(zeit)[i - 7]);
            }
        } else if !n.contains('.') {
            if i >= n.len() + 1 {
                assert(g[i] == e[i - n.len() - 1]);
            } else if i == n.len() {
                assert(g[i] == '.');
            }
        }
    }
    lemma_gekuerzt(g, 120);
    let r = sauberer_name_spec(vorschlag, mime, zeit);
    assert forall|i: int| 0 <= i < r.len() implies zulaessig(#[trigger] r[i]) by {
        assert(r[i] == g[i]);
    }
}

proof fn lemma_endung_alnum(rein: Seq<char>)
    ensures
        endung_aus_rein(rein).len() > 0,
        forall|i: int| 0 <= i < endung_aus_rein(rein).len() ==> ascii_alphanumerisch(#[trigger] endung_aus_rein(rein)[i]),
{
    reveal_strlit("jpg");
    reveal_strlit("png");
    reveal_strlit("gif");
    reveal_strlit("webp");
    reveal_strlit("mp4");
    reveal_strlit("3gp");
    reveal_strlit("mp3");
    reveal_strlit("aac");
    reveal_strlit("ogg");
    reveal_strlit("wav");
    reveal_strlit("pdf");
    reveal_strlit("txt");
    reveal_strlit("bin");
}

proof fn lemma_alnum_kein_leerraum(c: char)
    requires
        ascii_alphanumerisch(c),
    ensures
        !leerraum(c),
{
}

/// Ein Dateiname, der nicht gekuerzt werden musste, bleibt, wie er ist,
/// wenn man ihn noch einmal bereinigt, gleich mit welchem MIME-Typ und
/// welcher Zeit.
pub proof fn gesetz_name_fest(vorschlag: Seq<char>, mime: Seq<char>, zeit: u64, mime2: Seq<char>, zeit2: u64)
    requires
        utf8_laenge(name_ergaenzt(vorschlag, mime, zeit)) <= 120,
    ensures
        sauberer_name_spec(sauberer_name_spec(vorschlag, mime, zeit), mime2, zeit2) == sauberer_name_spec(
            vorschlag,
            mime,
            zeit,
        ),
{
    let g = name_ergaenzt(vorschlag, mime, zeit);
    let n = getrimmt(vorschlag.map_values(|c: char| namenszeichen(c)));
    let e = endung_spec(mime);
    gesetz_name_zulaessig(vorschlag, mime, zeit);
    assert(sauberer_name_spec(vorschlag, mime, zeit) == g);
    assert(g.map_values(|c: char| namenszeichen(c)) =~= g) by {
        assert forall|i: int| 0 <= i < g.len() implies namenszeichen(#[trigger] g[i]) == g[i] by {
            assert(zulaessig(sauberer_name_spec(vorschlag, mime, zeit)[i]));
        }
    }
    lemma_endung_alnum(rein_spec(mime));
    lemma_alnum_kein_leerraum(e.last());
    lemma_getrimmt_raender(vorschlag.map_values(|c: char| namenszeichen(c)));
    reveal_strlit("signal-");
    reveal_strlit(".");
    if n.len() == 0 {
        let a = "signal-"@ + dezimal(zeit);
        assert(g[0] == 's');
        assert(g.last() == e.last());
        assert(g[a.len() as int] == '.');
        assert(g.contains('.'));
    } else if !n.contains('.') {
        assert(g[0] == n[0]);
        assert(g.last() == e.last());
        assert(g[n.len() as int] == '.');
        assert(g.contains('.'));
    }
    lemma_getrimmt_fest(g);
}

/// Jede Dateiendung, die die Tabelle kennt, fuehrt zu ihrem Typ, auch die
/// zweiten Schreibweisen (`jpeg`, `m4a`, `oga`); jede andere zu
/// `application/octet-stream`.
pub proof fn gesetz_mime_tafel(e: Seq<char>)
    ensures
        e == "jpg"@ ==> mime_aus_endung_spec(e) == "image/jpeg"@,
        e == "jpeg"@ ==> mime_aus_endung_spec(e) == "image/jpeg"@,
        e == "png"@ ==> mime_aus_endung_spec(e) == "image/png"@,
        e == "gif"@ ==> mime_aus_endung_spec(e) == "image/gif"@,
        e == "webp"@ ==> mime_aus_endung_spec(e) == "image/webp"@,
        e == "mp4"@ ==> mime_aus_endung_spec(e) == "video/mp4"@,
        e == "3gp"@ ==> mime_aus_endung_spec(e) == "video/3gpp"@,
        e == "mp3"@ ==> mime_aus_endung_spec(e) == "audio/mpeg"@,
        e == "aac"@ ==> mime_aus_endung_spec(e) == "audio/aac"@,
        e == "m4a"@ ==> mime_aus_endung_spec(e) == "audio/aac"@,
        e == "ogg"@ ==> mime_aus_endung_spec(e) == "audio/ogg"@,
        e == "oga"@ ==> mime_aus_endung_spec(e) == "audio/ogg"@,
        e == "wav"@ ==> mime_aus_endung_spec(e) == "audio/wav"@,
        e == "pdf"@ ==> mime_aus_endung_spec(e) == "application/pdf"@,
        e == "txt"@ ==> mime_aus_endung_spec(e) == "text/plain"@,
        !(e == "jpg"@ || e == "jpeg"@ || e == "png"@ || e == "gif"@ || e == "webp"@ || e == "mp4"@ || e == "3gp"@ || e == "mp3"@ || e == "aac"@ || e == "m4a"@ || e == "ogg"@ || e == "oga"@ || e == "wav"@ || e == "pdf"@ || e == "txt"@) ==> mime_aus_endung_spec(e) == "application/octet-stream"@,
{
    reveal_strlit("jpg");
    reveal_strlit("jpeg");
    reveal_strlit("png");
    reveal_strlit("gif");
    reveal_strlit("webp");
    reveal_strlit("mp4");
    reveal_strlit("3gp");
    reveal_strlit("mp3");
    reveal_strlit("aac");
    reveal_strlit("m4a");
    reveal_strlit("ogg");
    reveal_strlit("oga");
    reveal_strlit("wav");
    reveal_strlit("pdf");
    reveal_strlit("txt");
    if e == "jpg"@ {
        assert(e.len() == 3 && e[0] == 'j' && e[1] == 'p' && e[2] == 'g');
    }
    if e == "jpeg"@ {
        assert(e.len() == 4 && e[0] == 'j' && e[1] == 'p' && e[2] == 'e' && e[3] == 'g');
    }
    if e == "png"@ {
        assert(e.len() == 3 && e[0] == 'p' && e[1] == 'n' && e[2] == 'g');
    }
    if e == "gif"@ {
        assert(e.len() == 3 && e[0] == 'g' && e[1] == 'i' && e[2] == 'f');
    }
    if e == "webp"@ {
        assert(e.len() == 4 && e[0] == 'w' && e[1] == 'e' && e[2] == 'b' && e[3] == 'p');
    }
    if e == "mp4"@ {
        assert(e.len() == 3 && e[0] == 'm' && e[1] == 'p' && e[2] == '4');
    }
    if e == "3gp"@ {
        assert(e.len() == 3 && e[0] == '3' && e[1] == 'g' && e[2] == 'p');
    }
    if e == "mp3"@ {
        assert(e.len() == 3 && e[0] == 'm' && e[1] == 'p' && e[2] == '3');
    }
    if e == "aac"@ {
        assert(e.len() == 3 && e[0] == 'a' && e[1] == 'a' && e[2] == 'c');
    }
    if e == "m4a"@ {
        assert(e.len() == 3 && e[0] == 'm' && e[1] == '4' && e[2] == 'a');
    }
    if e == "ogg"@ {
        assert(e.len() == 3 && e[0] == 'o' && e[1] == 'g' && e[2] == 'g');
    }
    if e == "oga"@ {
        assert(e.len() == 3 && e[0] == 'o' && e[1] == 'g' && e[2] == 'a');
    }
    if e == "wav"@ {
        assert(e.len() == 3 && e[0] == 'w' && e[1] == 'a' && e[2] == 'v');
    }
    if e == "pdf"@ {
        assert(e.len() == 3 && e[0] == 'p' && e[1] == 'd' && e[2] == 'f');
    }
    if e == "txt"@ {
        assert(e.len() == 3 && e[0] == 't' && e[1] == 'x' && e[2] == 't');
    }
}

proof fn lemma_utf8_gleich_breit(a: Seq<char>, b: Seq<char>)
    requires
        a.len() == b.len(),
        forall|i: int| 0 <= i < a.len() ==> breite(#[trigger] a[i]) == breite(b[i]),
    ensures
        utf8_laenge(a) == utf8_laenge(b),
    decreases a.len(),
{
    if a.len() > 0 {
        assert forall|i: int| 0 <= i < a.drop_first().len() implies breite(#[trigger] a.drop_first()[i])
            == breite(b.drop_first()[i]) by {
            assert(a.drop_first()[i] == a[i + 1] && b.drop_first()[i] == b[i + 1]);
        }
        lemma_utf8_gleich_breit(a.drop_first(), b.drop_first());
    }
}

/// Welche Zeichen eines Namensvorschlags ersetzt werden: genau `/ \ : * ?
/// " < > |` und die Steuerzeichen unter 32 werden `_`, jedes andere Zeichen
/// bleibt stehen. Ein Vorschlag, der nicht mit Leerraum beginnt oder endet,
/// einen Punkt enthaelt und hoechstens 120 Bytes braucht, kommt Zeichen fuer
/// Zeichen so zurueck; hat er keines dieser Zeichen, unveraendert.
pub proof fn gesetz_name_zeichenweise(vorschlag: Seq<char>, mime: Seq<char>, zeit: u64)
    requires
        vorschlag.len() > 0,
        !leerraum(vorschlag[0]),
        !leerraum(vorschlag.last()),
        vorschlag.contains('.'),
        utf8_laenge(vorschlag) <= 120,
    ensures
        sauberer_name_spec(vorschlag, mime, zeit).len() == vorschlag.len(),
        forall|i: int|
            0 <= i < vorschlag.len() ==> #[trigger] sauberer_name_spec(vorschlag, mime, zeit)[i] == if vorschlag[i]
                == '/' || vorschlag[i] == '\\' || vorschlag[i] == ':' || vorschlag[i] == '*' || vorschlag[i] == '?'
                || vorschlag[i] == '"' || vorschlag[i] == '<' || vorschlag[i] == '>' || vorschlag[i] == '|'
                || (vorschlag[i] as u32) < 32 {
                '_'
            } else {
                vorschlag[i]
            },
        (forall|i: int|
            0 <= i < vorschlag.len() ==> !(#[trigger] vorschlag[i] == '/' || vorschlag[i] == '\\' || vorschlag[i]
                == ':' || vorschlag[i] == '*' || vorschlag[i] == '?' || vorschlag[i] == '"' || vorschlag[i] == '<'
                || vorschlag[i] == '>' || vorschlag[i] == '|' || (vorschlag[i] as u32) < 32))
            ==> sauberer_name_spec(vorschlag, mime, zeit) == vorschlag,
{
    let m = vorschlag.map_values(|c: char| namenszeichen(c));
    assert(m[0] == namenszeichen(vorschlag[0]));
    assert(m.last() == namenszeichen(vorschlag.last()));
    lemma_getrimmt_fest(m);
    let j = choose|j: int| 0 <= j < vorschlag.len() && vorschlag[j] == '.';
    assert(m[j] == '.');
    assert(m.contains('.'));
    assert forall|i: int| 0 <= i < m.len() implies breite(#[trigger] m[i]) == breite(vorschlag[i]) by {
        assert(m[i] == namenszeichen(vorschlag[i]));
    }
    lemma_utf8_gleich_breit(m, vorschlag);
    assert(sauberer_name_spec(vorschlag, mime, zeit) == m);
    if forall|i: int|
        0 <= i < vorschlag.len() ==> !(#[trigger] vorschlag[i] == '/' || vorschlag[i] == '\\' || vorschlag[i] == ':'
            || vorschlag[i] == '*' || vorschlag[i] == '?' || vorschlag[i] == '"' || vorschlag[i] == '<'
            || vorschlag[i] == '>' || vorschlag[i] == '|' || (vorschlag[i] as u32) < 32) {
        assert(m =~= vorschlag);
    }
}

/// Jeder bekannte MIME-Typ bekommt seine uebliche Endung: `image/jpeg`
/// `jpg`, `video/3gpp` `3gp`, `audio/mpeg` `mp3`, `text/plain` `txt` und so
/// fort.
pub proof fn gesetz_endung_tafel(rein: Seq<char>)
    ensures
        rein == "image/jpeg"@ ==> endung_aus_rein(rein) == "jpg"@,
        rein == "image/png"@ ==> endung_aus_rein(rein) == "png"@,
        rein == "image/gif"@ ==> endung_aus_rein(rein) == "gif"@,
        rein == "image/webp"@ ==> endung_aus_rein(rein) == "webp"@,
        rein == "video/mp4"@ ==> endung_aus_rein(rein) == "mp4"@,
        rein == "video/3gpp"@ ==> endung_aus_rein(rein) == "3gp"@,
        rein == "audio/mpeg"@ ==> endung_aus_rein(rein) == "mp3"@,
        rein == "audio/aac"@ ==> endung_aus_rein(rein) == "aac"@,
        rein == "audio/ogg"@ ==> endung_aus_rein(rein) == "ogg"@,
        rein == "audio/wav"@ ==> endung_aus_rein(rein) == "wav"@,
        rein == "application/pdf"@ ==> endung_aus_rein(rein) == "pdf"@,
        rein == "text/plain"@ ==> endung_aus_rein(rein) == "txt"@,
{
    reveal_strlit("image/jpeg");
    reveal_strlit("image/png");
    reveal_strlit("image/gif");
    reveal_strlit("image/webp");
    reveal_strlit("video/mp4");
    reveal_strlit("video/3gpp");
    reveal_strlit("audio/mpeg");
    reveal_strlit("audio/aac");
    reveal_strlit("audio/ogg");
    reveal_strlit("audio/wav");
    reveal_strlit("application/pdf");
    reveal_strlit("text/plain");
    if rein == "image/jpeg"@ {
        assert(rein.len() == 10 && rein[0] == 'i' && rein[1] == 'm' && rein[2] == 'a' && rein[3] == 'g' && rein[4] == 'e' && rein[5] == '/' && rein[6] == 'j' && rein[7] == 'p' && rein[8] == 'e' && rein[9] == 'g');
    }
    if rein == "image/png"@ {
        assert(rein.len() == 9 && rein[0] == 'i' && rein[1] == 'm' && rein[2] == 'a' && rein[3] == 'g' && rein[4] == 'e' && rein[5] == '/' && rein[6] == 'p' && rein[7] == 'n' && rein[8] == 'g');
    }
    if rein == "image/gif"@ {
        assert(rein.len() == 9 && rein[0] == 'i' && rein[1] == 'm' && rein[2] == 'a' && rein[3] == 'g' && rein[4] == 'e' && rein[5] == '/' && rein[6] == 'g' && rein[7] == 'i' && rein[8] == 'f');
    }
    if rein == "image/webp"@ {
        assert(rein.len() == 10 && rein[0] == 'i' && rein[1] == 'm' && rein[2] == 'a' && rein[3] == 'g' && rein[4] == 'e' && rein[5] == '/' && rein[6] == 'w' && rein[7] == 'e' && rein[8] == 'b' && rein[9] == 'p');
    }
    if rein == "video/mp4"@ {
        assert(rein.len() == 9 && rein[0] == 'v' && rein[1] == 'i' && rein[2] == 'd' && rein[3] == 'e' && rein[4] == 'o' && rein[5] == '/' && rein[6] == 'm' && rein[7] == 'p' && rein[8] == '4');
    }
    if rein == "video/3gpp"@ {
        assert(rein.len() == 10 && rein[0] == 'v' && rein[1] == 'i' && rein[2] == 'd' && rein[3] == 'e' && rein[4] == 'o' && rein[5] == '/' && rein[6] == '3' && rein[7] == 'g' && rein[8] == 'p' && rein[9] == 'p');
    }
    if rein == "audio/mpeg"@ {
        assert(rein.len() == 10 && rein[0] == 'a' && rein[1] == 'u' && rein[2] == 'd' && rein[3] == 'i' && rein[4] == 'o' && rein[5] == '/' && rein[6] == 'm' && rein[7] == 'p' && rein[8] == 'e' && rein[9] == 'g');
    }
    if rein == "audio/aac"@ {
        assert(rein.len() == 9 && rein[0] == 'a' && rein[1] == 'u' && rein[2] == 'd' && rein[3] == 'i' && rein[4] == 'o' && rein[5] == '/' && rein[6] == 'a' && rein[7] == 'a' && rein[8] == 'c');
    }
    if rein == "audio/ogg"@ {
        assert(rein.len() == 9 && rein[0] == 'a' && rein[1] == 'u' && rein[2] == 'd' && rein[3] == 'i' && rein[4] == 'o' && rein[5] == '/' && rein[6] == 'o' && rein[7] == 'g' && rein[8] == 'g');
    }
    if rein == "audio/wav"@ {
        assert(rein.len() == 9 && rein[0] == 'a' && rein[1] == 'u' && rein[2] == 'd' && rein[3] == 'i' && rein[4] == 'o' && rein[5] == '/' && rein[6] == 'w' && rein[7] == 'a' && rein[8] == 'v');
    }
    if rein == "application/pdf"@ {
        assert(rein.len() == 15 && rein[0] == 'a' && rein[1] == 'p' && rein[2] == 'p' && rein[3] == 'l' && rein[4] == 'i' && rein[5] == 'c' && rein[6] == 'a' && rein[7] == 't' && rein[8] == 'i' && rein[9] == 'o' && rein[10] == 'n' && rein[11] == '/' && rein[12] == 'p' && rein[13] == 'd' && rein[14] == 'f');
    }
    if rein == "text/plain"@ {
        assert(rein.len() == 10 && rein[0] == 't' && rein[1] == 'e' && rein[2] == 'x' && rein[3] == 't' && rein[4] == '/' && rein[5] == 'p' && rein[6] == 'l' && rein[7] == 'a' && rein[8] == 'i' && rein[9] == 'n');
    }
}

/// Der Zielordner passt zur Art: Bilder nach `Pictures`, Videos nach
/// `Videos`, Ton nach `Music`, alles andere nach `Documents`, jeweils in
/// einen Unterordner `Fluesterwind`.
pub proof fn gesetz_ordner_nach_art(mime: Seq<char>)
    ensures
        art_spec(mime) == "image"@ ==> unterordner_spec(mime) == "Pictures/Fluesterwind"@,
        art_spec(mime) == "video"@ ==> unterordner_spec(mime) == "Videos/Fluesterwind"@,
        art_spec(mime) == "audio"@ ==> unterordner_spec(mime) == "Music/Fluesterwind"@,
        art_spec(mime) == "document"@ ==> unterordner_spec(mime) == "Documents/Fluesterwind"@,
        beginnt_mit(mime, "image/"@) ==> art_spec(mime) == "image"@,
        !beginnt_mit(mime, "image/"@) && !beginnt_mit(mime, "video/"@) && !beginnt_mit(mime, "audio/"@)
            ==> art_spec(mime) == "document"@,
{
    reveal_strlit("image");
    reveal_strlit("video");
    reveal_strlit("audio");
    reveal_strlit("document");
    assert("image"@[0] != "video"@[0] && "image"@[0] != "audio"@[0] && "image"@.len() != "document"@.len());
    assert("video"@[0] != "audio"@[0] && "video"@.len() != "document"@.len() && "audio"@.len() != "document"@.len());
}

/// Endung und MIME-Typ passen zueinander: fuer jeden bekannten Typ fuehrt
/// die Endung, die `endung` waehlt, mit `mime_aus_endung` zu ihm zurueck.
pub proof fn gesetz_endung_und_mime(mime: Seq<char>)
    requires
        bekannte_endung(mime) is Some,
    ensures
        mime_aus_endung_spec(endung_aus_rein(mime)) == mime,
{
    reveal_strlit("3gp");
    reveal_strlit("aac");
    reveal_strlit("application/pdf");
    reveal_strlit("audio/aac");
    reveal_strlit("audio/mpeg");
    reveal_strlit("audio/ogg");
    reveal_strlit("audio/wav");
    reveal_strlit("gif");
    reveal_strlit("image/gif");
    reveal_strlit("image/jpeg");
    reveal_strlit("image/png");
    reveal_strlit("image/webp");
    reveal_strlit("jpeg");
    reveal_strlit("jpg");
    reveal_strlit("m4a");
    reveal_strlit("mp3");
    reveal_strlit("mp4");
    reveal_strlit("oga");
    reveal_strlit("ogg");
    reveal_strlit("pdf");
    reveal_strlit("png");
    reveal_strlit("text/plain");
    reveal_strlit("txt");
    reveal_strlit("video/3gpp");
    reveal_strlit("video/mp4");
    reveal_strlit("wav");
    reveal_strlit("webp");
    assert("image/png"@.len() != "image/jpeg"@.len());
    assert("png"@[0] != "jpg"@[0]);
    assert("png"@.len() != "jpeg"@.len());
    assert("image/gif"@.len() != "image/jpeg"@.len());
    assert("image/gif"@[6] != "image/png"@[6]);
    assert("gif"@[0] != "jpg"@[0]);
    assert("gif"@.len() != "jpeg"@.len());
    assert("gif"@[0] != "png"@[0]);
    assert("image/webp"@[6] != "image/jpeg"@[6]);
    assert("image/webp"@.len() != "image/png"@.len());
    assert("image/webp"@.len() != "image/gif"@.len());
    assert("webp"@.len() != "jpg"@.len());
    assert("webp"@[0] != "jpeg"@[0]);
    assert("webp"@.len() != "png"@.len());
    assert("webp"@.len() != "gif"@.len());
    assert("video/mp4"@.len() != "image/jpeg"@.len());
    assert("video/mp4"@[0] != "image/png"@[0]);
    assert("video/mp4"@[0] != "image/gif"@[0]);
    assert("video/mp4"@.len() != "image/webp"@.len());
    assert("mp4"@[0] != "jpg"@[0]);
    assert("mp4"@.len() != "jpeg"@.len());
    assert("mp4"@[0] != "png"@[0]);
    assert("mp4"@[0] != "gif"@[0]);
    assert("mp4"@.len() != "webp"@.len());
    assert("video/3gpp"@[0] != "image/jpeg"@[0]);
    assert("video/3gpp"@.len() != "image/png"@.len());
    assert("video/3gpp"@.len() != "image/gif"@.len());
    assert("video/3gpp"@[0] != "image/webp"@[0]);
    assert("video/3gpp"@.len() != "video/mp4"@.len());
    assert("3gp"@[0] != "jpg"@[0]);
    assert("3gp"@.len() != "jpeg"@.len());
    assert("3gp"@[0] != "png"@[0]);
    assert("3gp"@[0] != "gif"@[0]);
    assert("3gp"@.len() != "webp"@.len());
    assert("3gp"@[0] != "mp4"@[0]);
    assert("audio/mpeg"@[0] != "image/jpeg"@[0]);
    assert("audio/mpeg"@.len() != "image/png"@.len());
    assert("audio/mpeg"@.len() != "image/gif"@.len());
    assert("audio/mpeg"@[0] != "image/webp"@[0]);
    assert("audio/mpeg"@.len() != "video/mp4"@.len());
    assert("audio/mpeg"@[0] != "video/3gpp"@[0]);
    assert("mp3"@[0] != "jpg"@[0]);
    assert("mp3"@.len() != "jpeg"@.len());
    assert("mp3"@[0] != "png"@[0]);
    assert("mp3"@[0] != "gif"@[0]);
    assert("mp3"@.len() != "webp"@.len());
    assert("mp3"@[2] != "mp4"@[2]);
    assert("mp3"@[0] != "3gp"@[0]);
    assert("audio/aac"@.len() != "image/jpeg"@.len());
    assert("audio/aac"@[0] != "image/png"@[0]);
    assert("audio/aac"@[0] != "image/gif"@[0]);
    assert("audio/aac"@.len() != "image/webp"@.len());
    assert("audio/aac"@[0] != "video/mp4"@[0]);
    assert("audio/aac"@.len() != "video/3gpp"@.len());
    assert("audio/aac"@.len() != "audio/mpeg"@.len());
    assert("aac"@[0] != "jpg"@[0]);
    assert("aac"@.len() != "jpeg"@.len());
    assert("aac"@[0] != "png"@[0]);
    assert("aac"@[0] != "gif"@[0]);
    assert("aac"@.len() != "webp"@.len());
    assert("aac"@[0] != "mp4"@[0]);
    assert("aac"@[0] != "3gp"@[0]);
    assert("aac"@[0] != "mp3"@[0]);
    assert("audio/ogg"@.len() != "image/jpeg"@.len());
    assert("audio/ogg"@[0] != "image/png"@[0]);
    assert("audio/ogg"@[0] != "image/gif"@[0]);
    assert("audio/ogg"@.len() != "image/webp"@.len());
    assert("audio/ogg"@[0] != "video/mp4"@[0]);
    assert("audio/ogg"@.len() != "video/3gpp"@.len());
    assert("audio/ogg"@.len() != "audio/mpeg"@.len());
    assert("audio/ogg"@[6] != "audio/aac"@[6]);
    assert("ogg"@[0] != "jpg"@[0]);
    assert("ogg"@.len() != "jpeg"@.len());
    assert("ogg"@[0] != "png"@[0]);
    assert("ogg"@[0] != "gif"@[0]);
    assert("ogg"@.len() != "webp"@.len());
    assert("ogg"@[0] != "mp4"@[0]);
    assert("ogg"@[0] != "3gp"@[0]);
    assert("ogg"@[0] != "mp3"@[0]);
    assert("ogg"@[0] != "aac"@[0]);
    assert("ogg"@[0] != "m4a"@[0]);
    assert("audio/wav"@.len() != "image/jpeg"@.len());
    assert("audio/wav"@[0] != "image/png"@[0]);
    assert("audio/wav"@[0] != "image/gif"@[0]);
    assert("audio/wav"@.len() != "image/webp"@.len());
    assert("audio/wav"@[0] != "video/mp4"@[0]);
    assert("audio/wav"@.len() != "video/3gpp"@.len());
    assert("audio/wav"@.len() != "audio/mpeg"@.len());
    assert("audio/wav"@[6] != "audio/aac"@[6]);
    assert("audio/wav"@[6] != "audio/ogg"@[6]);
    assert("wav"@[0] != "jpg"@[0]);
    assert("wav"@.len() != "jpeg"@.len());
    assert("wav"@[0] != "png"@[0]);
    assert("wav"@[0] != "gif"@[0]);
    assert("wav"@.len() != "webp"@.len());
    assert("wav"@[0] != "mp4"@[0]);
    assert("wav"@[0] != "3gp"@[0]);
    assert("wav"@[0] != "mp3"@[0]);
    assert("wav"@[0] != "aac"@[0]);
    assert("wav"@[0] != "m4a"@[0]);
    assert("wav"@[0] != "ogg"@[0]);
    assert("wav"@[0] != "oga"@[0]);
    assert("application/pdf"@.len() != "image/jpeg"@.len());
    assert("application/pdf"@.len() != "image/png"@.len());
    assert("application/pdf"@.len() != "image/gif"@.len());
    assert("application/pdf"@.len() != "image/webp"@.len());
    assert("application/pdf"@.len() != "video/mp4"@.len());
    assert("application/pdf"@.len() != "video/3gpp"@.len());
    assert("application/pdf"@.len() != "audio/mpeg"@.len());
    assert("application/pdf"@.len() != "audio/aac"@.len());
    assert("application/pdf"@.len() != "audio/ogg"@.len());
    assert("application/pdf"@.len() != "audio/wav"@.len());
    assert("pdf"@[0] != "jpg"@[0]);
    assert("pdf"@.len() != "jpeg"@.len());
    assert("pdf"@[1] != "png"@[1]);
    assert("pdf"@[0] != "gif"@[0]);
    assert("pdf"@.len() != "webp"@.len());
    assert("pdf"@[0] != "mp4"@[0]);
    assert("pdf"@[0] != "3gp"@[0]);
    assert("pdf"@[0] != "mp3"@[0]);
    assert("pdf"@[0] != "aac"@[0]);
    assert("pdf"@[0] != "m4a"@[0]);
    assert("pdf"@[0] != "ogg"@[0]);
    assert("pdf"@[0] != "oga"@[0]);
    assert("pdf"@[0] != "wav"@[0]);
    assert("text/plain"@[0] != "image/jpeg"@[0]);
    assert("text/plain"@.len() != "image/png"@.len());
    assert("text/plain"@.len() != "image/gif"@.len());
    assert("text/plain"@[0] != "image/webp"@[0]);
    assert("text/plain"@.len() != "video/mp4"@.len());
    assert("text/plain"@[0] != "video/3gpp"@[0]);
    assert("text/plain"@[0] != "audio/mpeg"@[0]);
    assert("text/plain"@.len() != "audio/aac"@.len());
    assert("text/plain"@.len() != "audio/ogg"@.len());
    assert("text/plain"@.len() != "audio/wav"@.len());
    assert("text/plain"@.len() != "application/pdf"@.len());
    assert("txt"@[0] != "jpg"@[0]);
    assert("txt"@.len() != "jpeg"@.len());
    assert("txt"@[0] != "png"@[0]);
    assert("txt"@[0] != "gif"@[0]);
    assert("txt"@.len() != "webp"@.len());
    assert("txt"@[0] != "mp4"@[0]);
    assert("txt"@[0] != "3gp"@[0]);
    assert("txt"@[0] != "mp3"@[0]);
    assert("txt"@[0] != "aac"@[0]);
    assert("txt"@[0] != "m4a"@[0]);
    assert("txt"@[0] != "ogg"@[0]);
    assert("txt"@[0] != "oga"@[0]);
    assert("txt"@[0] != "wav"@[0]);
    assert("txt"@[0] != "pdf"@[0]);
}

} // verus!
