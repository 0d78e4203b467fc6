//! Wie eine Unterhaltung nach aussen heisst.
//!
//! Eine Person heisst `c:` und ihre Dienstkennung, eine Gruppe `g:` und
//! ihr Hauptschluessel in Kleinbuchstaben-Hex. Der Vorsatz entscheidet, ob
//! es eine Gruppe ist, nicht die Laenge.

use vstd::prelude::*;
use vstd::utf8::*;
use vstd::string::*;

use crate::text::zeichen_anhaengen;

verus! {

broadcast use vstd::utf8::is_ascii_chars_encode_utf8;

/// Die Hex-Ziffer (als ASCII-Byte) fuer einen Wert unter 16, klein geschrieben.
pub open spec fn hexziffer(v: u8) -> u8 {
    if v < 10 { (48 + v) as u8 } else { (87 + v) as u8 }
}

/// Jedes Byte als zwei Hex-Ziffern, hoeherwertige zuerst.
pub open spec fn hex_bytes(k: Seq<u8>) -> Seq<u8>
    decreases k.len(),
{
    if k.len() == 0 {
        seq![]
    } else {
        seq![hexziffer(k[0] / 16), hexziffer(k[0] % 16)] + hex_bytes(k.drop_first())
    }
}

/// ASCII-Bytes als Zeichen.
pub open spec fn als_zeichen(b: Seq<u8>) -> Seq<char> {
    b.map_values(|x: u8| x as char)
}

/// Die Kennung einer Person.
pub open spec fn person_spec(service_id: Seq<char>) -> Seq<char> {
    seq!['c', ':'] + service_id
}

/// Die Kennung einer Gruppe.
pub open spec fn gruppe_spec(master_key: Seq<u8>) -> Seq<char> {
    seq!['g', ':'] + als_zeichen(hex_bytes(master_key))
}

/// Eine Kennung gehoert zu einer Gruppe, wenn sie mit `g:` beginnt.
pub open spec fn ist_gruppe_spec(kennung: Seq<char>) -> bool {
    kennung.len() >= 2 && kennung[0] == 'g' && kennung[1] == ':'
}

/// Der Wert einer Hex-Ziffer (ASCII-Byte), gross oder klein geschrieben.
pub open spec fn hexwert(b: u8) -> Option<u8> {
    if 48 <= b <= 57 {
        Some((b - 48) as u8)
    } else if 97 <= b <= 102 {
        Some((b - 87) as u8)
    } else if 65 <= b <= 70 {
        Some((b - 55) as u8)
    } else {
        None
    }
}

/// Ein Byte aus zwei Bytes Text zur Basis 16, wie `u8::from_str_radix`
/// sie liest: zwei Ziffern, oder ein `+` und eine Ziffer.
pub open spec fn paar_wert(h: u8, l: u8) -> Option<u8> {
    if h == 43 {
        hexwert(l)
    } else {
        match (hexwert(h), hexwert(l)) {
            (Some(a), Some(b)) => Some((16 * a + b) as u8),
            _ => None,
        }
    }
}

/// Die Bytes, zu denen die Paare dekodieren; `None`, sobald ein Paar keine
/// Zahl ist.
pub open spec fn paare_dekodiert(b: Seq<u8>) -> Option<Seq<u8>>
    decreases b.len(),
{
    if b.len() < 2 {
        Some(seq![])
    } else {
        match paar_wert(b[0], b[1]) {
            None => None,
            Some(x) => match paare_dekodiert(b.skip(2)) {
                Some(rest) => Some(seq![x] + rest),
                None => None,
            },
        }
    }
}

/// Ob das Zerlegen in Zwei-Byte-Stuecke mitten in ein Zeichen schneidet,
/// bevor ein Paar als ungueltig erkannt ist (dort bricht die Zerlegung ab).
pub open spec fn paare_zerschneiden(b: Seq<u8>) -> bool
    decreases b.len(),
{
    if b.len() < 2 {
        false
    } else if b.len() > 2 && is_continuation_byte(b[2]) {
        true
    } else {
        match paar_wert(b[0], b[1]) {
            None => false,
            Some(_) => paare_zerschneiden(b.skip(2)),
        }
    }
}

/// Ob die UTF-8-Bytes einer Kennung mit `g:` beginnen.
pub open spec fn hat_gruppenvorsatz(b: Seq<u8>) -> bool {
    b.len() >= 2 && b[0] == 103 && b[1] == 58
}

/// Der Hauptschluessel zu den UTF-8-Bytes einer Kennung.
pub open spec fn schluessel_spec(b: Seq<u8>) -> Option<Seq<u8>> {
    if !hat_gruppenvorsatz(b) {
        None
    } else if b.skip(2).len() % 2 != 0 {
        None
    } else {
        paare_dekodiert(b.skip(2))
    }
}

/// Ob das Lesen des Schluessels an diesen Bytes mitten in ein Zeichen schnitte.
pub open spec fn schluessel_zerschneidet(b: Seq<u8>) -> bool {
    hat_gruppenvorsatz(b) && b.skip(2).len() % 2 == 0 && paare_zerschneiden(b.skip(2))
}

/// Die Kennung einer Person: `c:` und die Dienstkennung.
pub fn kennung_person(service_id: &str) -> (r: String)
    ensures
        r@ == person_spec(service_id@),
{
    let mut s = String::from_str("c:");
    proof {
        reveal_strlit("c:");
    }
    s.append(service_id);
    s
}

fn hexzeichen(v: u8) -> (c: char)
    requires
        v < 16,
    ensures
        c == (hexziffer(v) as char),
{
    if v < 10 {
        (48 + v) as char
    } else {
        (87 + v) as char
    }
}

proof fn lemma_hex_bytes_verketten(a: Seq<u8>, b: Seq<u8>)
    ensures
        hex_bytes(a + b) == hex_bytes(a) + hex_bytes(b),
    decreases a.len(),
{
    if a.len() == 0 {
        assert(a + b =~= b);
    } else {
        assert((a + b).drop_first() =~= a.drop_first() + b);
        lemma_hex_bytes_verketten(a.drop_first(), b);
    }
}

/// Die Kennung einer Gruppe: `g:` und ihr Hauptschluessel in Hex.
pub fn kennung_gruppe(master_key: &[u8]) -> (r: String)
    ensures
        r@ == gruppe_spec(master_key@),
{
    let mut s = String::from_str("g:");
    proof {
        reveal_strlit("g:");
    }
    let n = master_key.len();
    for i in 0..n
        invariant
            n == master_key@.len(),
            s@ == seq!['g', ':'] + als_zeichen(hex_bytes(master_key@.take(i as int))),
    {
        let b = master_key[i];
        proof {
            let k = master_key@;
            assert(k.take(i + 1) =~= k.take(i as int) + seq![b]);
            lemma_hex_bytes_verketten(k.take(i as int), seq![b]);
            reveal_with_fuel(hex_bytes, 2);
        }
        zeichen_anhaengen(&mut s, hexzeichen(b / 16));
        zeichen_anhaengen(&mut s, hexzeichen(b % 16));
        assert(s@ =~= seq!['g', ':'] + als_zeichen(hex_bytes(master_key@.take(i + 1))));
    }
    assert(master_key@.take(n as int) =~= master_key@);
    s
}

/// Ob eine Kennung eine Gruppe bezeichnet.
pub fn ist_gruppe(kennung: &str) -> (r: bool)
    ensures
        r == ist_gruppe_spec(kennung@),
{
    let n = kennung.unicode_len();
    n >= 2 && kennung.get_char(0) == 'g' && kennung.get_char(1) == ':'
}

fn hexwert_von(b: u8) -> (r: Option<u8>)
    ensures
        r == hexwert(b),
{
    if 48 <= b && b <= 57 {
        Some(b - 48)
    } else if 97 <= b && b <= 102 {
        Some(b - 87)
    } else if 65 <= b && b <= 70 {
        Some(b - 55)
    } else {
        None
    }
}

fn paar_wert_von(h: u8, l: u8) -> (r: Option<u8>)
    ensures
        r == paar_wert(h, l),
{
    if h == 43 {
        hexwert_von(l)
    } else {
        match (hexwert_von(h), hexwert_von(l)) {
            (Some(a), Some(b)) => Some(16 * a + b),
            _ => None,
        }
    }
}

/// Der Hauptschluessel einer Gruppe aus ihrer Kennung.
///
/// `None`, wenn die Kennung nicht mit `g:` beginnt, wenn danach eine
/// ungerade Zahl von Bytes folgt, oder wenn ein Paar keine Zahl zur Basis
/// 16 ist. Ausgeschlossen sind die Kennungen, bei denen das paarweise
/// Zerlegen mitten in ein Zeichen schnitte.
pub fn gruppenschluessel(kennung: &str) -> (r: Option<Vec<u8>>)
    requires
        !schluessel_zerschneidet(kennung.spec_bytes()),
    ensures
        match r {
            Some(v) => schluessel_spec(kennung.spec_bytes()) == Some(v@),
            None => schluessel_spec(kennung.spec_bytes()) is None,
        },
{
    let b = kennung.as_bytes();
    let n = b.len();
    if !(n >= 2 && b[0] == 103 && b[1] == 58) {
        return None;
    }
    if (n - 2) % 2 != 0 {
        return None;
    }
    let ghost h = b@.skip(2);
    let mut r: Vec<u8> = Vec::new();
    let mut i: usize = 2;
    while i < n
        invariant
            n == b@.len(),
            b@ == kennung.spec_bytes(),
            h == b@.skip(2),
            h.len() % 2 == 0,
            2 <= i <= n,
            (i - 2) % 2 == 0,
            match paare_dekodiert(b@.skip(i as int)) {
                Some(rest) => paare_dekodiert(h) == Some(r@ + rest),
                None => paare_dekodiert(h) is None,
            },
        decreases n - i,
    {
        let ghost t = b@.skip(i as int);
        assert(t.len() >= 2);
        assert(t[0] == b@[i as int] && t[1] == b@[i + 1]);
        assert(t.skip(2) =~= b@.skip(i + 2));
        match paar_wert_von(b[i], b[i + 1]) {
            None => {
                return None;
            },
            Some(x) => {
                proof {
                    match paare_dekodiert(t.skip(2)) {
                        Some(rest) => {
                            assert(r@.push(x) + rest =~= r@ + (seq![x] + rest));
                        },
                        None => {},
                    }
                }
                r.push(x);
            },
        }
        i = i + 2;
    }
    assert(r@ + seq![] =~= r@);
    Some(r)
}

fn schluessel_zerschneidet_von(kennung: &str) -> (r: bool)
    ensures
        r == schluessel_zerschneidet(kennung.spec_bytes()),
{
    let b = kennung.as_bytes();
    let n = b.len();
    if !(n >= 2 && b[0] == 103 && b[1] == 58) {
        return false;
    }
    if (n - 2) % 2 != 0 {
        return false;
    }
    let ghost h = b@.skip(2);
    let mut i: usize = 2;
    while i < n
        invariant
            n == b@.len(),
            b@ == kennung.spec_bytes(),
            h == b@.skip(2),
            hat_gruppenvorsatz(b@),
            h.len() % 2 == 0,
            2 <= i <= n,
            (i - 2) % 2 == 0,
            paare_zerschneiden(h) == paare_zerschneiden(b@.skip(i as int)),
        decreases n - i,
    {
        let ghost t = b@.skip(i as int);
        assert(t[0] == b@[i as int] && t[1] == b@[i + 1]);
        assert(t.skip(2) =~= b@.skip(i + 2));
        if i + 2 < n {
            assert(t[2] == b@[i + 2]);
            if 0x80 <= b[i + 2] && b[i + 2] <= 0xbf {
                return true;
            }
        }
        match paar_wert_von(b[i], b[i + 1]) {
            None => {
                return false;
            },
            Some(_) => {},
        }
        i = i + 2;
    }
    assert(b@.skip(i as int).len() == 0);
    false
}

/// Der Hauptschluessel wie bei `gruppenschluessel`, fuer jede Kennung:
/// `None`, wenn das paarweise Lesen mitten in ein Zeichen schnitte (dort
/// ist `gruppenschluessel` nicht anwendbar), sonst `Some` mit dessen
/// Ergebnis.
pub fn gruppenschluessel_pruefen(kennung: &str) -> (r: Option<Option<Vec<u8>>>)
    ensures
        r is None <==> schluessel_zerschneidet(kennung.spec_bytes()),
        r matches Some(x) ==> match x {
            Some(v) => schluessel_spec(kennung.spec_bytes()) == Some(v@),
            None => schluessel_spec(kennung.spec_bytes()) is None,
        },
{
    if schluessel_zerschneidet_von(kennung) {
        None
    } else {
        Some(gruppenschluessel(kennung))
    }
}

proof fn lemma_hex_paare(k: Seq<u8>)
    ensures
        hex_bytes(k).len() == 2 * k.len(),
        forall|i: int| 0 <= i < hex_bytes(k).len() ==> #[trigger] hex_bytes(k)[i] < 128,
        paare_dekodiert(hex_bytes(k)) == Some(k),
        !paare_zerschneiden(hex_bytes(k)),
    decreases k.len(),
{
    if k.len() > 0 {
        let h = hex_bytes(k);
        let x = k[0];
        lemma_hex_paare(k.drop_first());
        assert(h.skip(2) =~= hex_bytes(k.drop_first()));
        assert(hexwert(hexziffer(x / 16)) == Some(x / 16));
        assert(hexwert(hexziffer(x % 16)) == Some(x % 16));
        assert(paar_wert(h[0], h[1]) == Some(x));
        assert(seq![x] + k.drop_first() =~= k);
    }
}

/// Aus der Kennung einer Gruppe liest `gruppenschluessel` genau ihren
/// Hauptschluessel zurueck, und das Lesen schneidet nie in ein Zeichen.
pub proof fn gesetz_schluessel_rueckweg(master_key: Seq<u8>)
    ensures
        !schluessel_zerschneidet(encode_utf8(gruppe_spec(master_key))),
        schluessel_spec(encode_utf8(gruppe_spec(master_key))) == Some(master_key),
{
    let h = hex_bytes(master_key);
    let z = gruppe_spec(master_key);
    lemma_hex_paare(master_key);
    assert forall|i: int| 0 <= i < z.len() implies '\0' <= #[trigger] z[i] <= '\u{7f}' by {
        if i >= 2 {
            assert(z[i] == (h[i - 2] as char));
        }
    }
    assert(is_ascii_chars(z));
    let b = encode_utf8(z);
    assert(b.len() == z.len());
    assert forall|j: int| 0 <= j < h.len() implies #[trigger] b.skip(2)[j] == h[j] by {
        assert(z[j + 2] == (h[j] as char));
        assert(b[j + 2] == (z[j + 2] as u8));
        assert((h[j] as char) as u8 == h[j]);
    }
    assert(b.skip(2) =~= h);
}

/// Eine Gruppenkennung ist eine Gruppe, eine Personenkennung nie.
pub proof fn gesetz_vorsatz(master_key: Seq<u8>, service_id: Seq<char>)
    ensures
        ist_gruppe_spec(gruppe_spec(master_key)),
        !ist_gruppe_spec(person_spec(service_id)),
{
}

/// Aus der Kennung einer Person liest `gruppenschluessel` keinen Schluessel.
pub proof fn gesetz_person_ohne_schluessel(service_id: Seq<char>)
    ensures
        schluessel_spec(encode_utf8(person_spec(service_id))) is None,
{
    let z = person_spec(service_id);
    let b = encode_utf8(z);
    assert(z[0] == 'c');
    assert(z.drop_first().len() >= 1);
    assert(b == encode_scalar(z[0] as u32) + encode_utf8(z.drop_first()));
    assert(('c' as u32) == 99);
    assert(leading_byte_width_1(99) == 99) by (bit_vector);
    assert(b[0] == 99);
}

/// Die Hex-Ziffern klein und gross, nach ihrem Wert geordnet.
proof fn lemma_ziffern_tafel(v: u8)
    requires
        v < 16,
    ensures
        hexziffer(v) as char == "0123456789abcdef"@[v as int],
        hexwert(hexziffer(v)) == Some(v),
        hexwert((("0123456789ABCDEF"@[v as int]) as u32) as u8) == Some(v),
        ("0123456789abcdef"@[v as int] as u32) < 128,
        ("0123456789ABCDEF"@[v as int] as u32) < 128,
        v < 10 ==> "0123456789ABCDEF"@[v as int] as u32 == 48 + v,
        v >= 10 ==> "0123456789ABCDEF"@[v as int] as u32 == 55 + v,
{
    reveal_strlit("0123456789abcdef");
    reveal_strlit("0123456789ABCDEF");
    if v == 0 {
        assert("0123456789abcdef"@[0] == '0' && "0123456789ABCDEF"@[0] == '0');
    } else if v == 1 {
        assert("0123456789abcdef"@[1] == '1' && "0123456789ABCDEF"@[1] == '1');
    } else if v == 2 {
        assert("0123456789abcdef"@[2] == '2' && "0123456789ABCDEF"@[2] == '2');
    } else if v == 3 {
        assert("0123456789abcdef"@[3] == '3' && "0123456789ABCDEF"@[3] == '3');
    } else if v == 4 {
        assert("0123456789abcdef"@[4] == '4' && "0123456789ABCDEF"@[4] == '4');
    } else if v == 5 {
        assert("0123456789abcdef"@[5] == '5' && "0123456789ABCDEF"@[5] == '5');
    } else if v == 6 {
        assert("0123456789abcdef"@[6] == '6' && "0123456789ABCDEF"@[6] == '6');
    } else if v == 7 {
        assert("0123456789abcdef"@[7] == '7' && "0123456789ABCDEF"@[7] == '7');
    } else if v == 8 {
        assert("0123456789abcdef"@[8] == '8' && "0123456789ABCDEF"@[8] == '8');
    } else if v == 9 {
        assert("0123456789abcdef"@[9] == '9' && "0123456789ABCDEF"@[9] == '9');
    } else if v == 10 {
        assert("0123456789abcdef"@[10] == 'a' && "0123456789ABCDEF"@[10] == 'A');
    } else if v == 11 {
        assert("0123456789abcdef"@[11] == 'b' && "0123456789ABCDEF"@[11] == 'B');
    } else if v == 12 {
        assert("0123456789abcdef"@[12] == 'c' && "0123456789ABCDEF"@[12] == 'C');
    } else if v == 13 {
        assert("0123456789abcdef"@[13] == 'd' && "0123456789ABCDEF"@[13] == 'D');
    } else if v == 14 {
        assert("0123456789abcdef"@[14] == 'e' && "0123456789ABCDEF"@[14] == 'E');
    } else if v == 15 {
        assert("0123456789abcdef"@[15] == 'f' && "0123456789ABCDEF"@[15] == 'F');
    }
}

proof fn lemma_hex_bytes_stelle(k: Seq<u8>, i: int)
    requires
        0 <= i < k.len(),
    ensures
        hex_bytes(k).len() == 2 * k.len(),
        hex_bytes(k)[2 * i] == hexziffer(k[i] / 16),
        hex_bytes(k)[2 * i + 1] == hexziffer(k[i] % 16),
    decreases k.len(),
{
    lemma_hex_paare(k);
    if i > 0 {
        lemma_hex_bytes_stelle(k.drop_first(), i - 1);
        assert(hex_bytes(k)[2 * i] == hex_bytes(k.drop_first())[2 * (i - 1)]);
        assert(hex_bytes(k)[2 * i + 1] == hex_bytes(k.drop_first())[2 * (i - 1) + 1]);
    }
}

/// Die Kennung einer Gruppe ist `g:` und dann jedes Byte des Schluessels
/// als zwei Hex-Ziffern aus `0123456789abcdef`, die hoeherwertige zuerst,
/// wie `format!("{b:02x}")` sie schreibt.
pub proof fn gesetz_gruppe_ziffern(master_key: Seq<u8>, i: int)
    requires
        0 <= i < master_key.len(),
    ensures
        gruppe_spec(master_key).len() == 2 + 2 * master_key.len(),
        gruppe_spec(master_key)[0] == 'g' && gruppe_spec(master_key)[1] == ':',
        gruppe_spec(master_key)[2 + 2 * i] == "0123456789abcdef"@[(master_key[i] / 16) as int],
        gruppe_spec(master_key)[3 + 2 * i] == "0123456789abcdef"@[(master_key[i] % 16) as int],
{
    lemma_hex_bytes_stelle(master_key, i);
    lemma_ziffern_tafel(master_key[i] / 16);
    lemma_ziffern_tafel(master_key[i] % 16);
    let h = hex_bytes(master_key);
    assert(als_zeichen(h)[2 * i] == h[2 * i] as char);
    assert(als_zeichen(h)[2 * i + 1] == h[2 * i + 1] as char);
}

/// Welchen Wert eine Ziffer beim Lesen des Schluessels hat: jede Ziffer aus
/// `0123456789abcdef` und aus `0123456789ABCDEF` ihre Stelle in dieser
/// Reihe, wie bei `u8::from_str_radix(.., 16)`; jedes andere Byte ist keine
/// Ziffer.
pub proof fn gesetz_ziffernwert(b: u8, v: u8)
    requires
        v < 16,
    ensures
        hexwert((("0123456789abcdef"@[v as int]) as u32) as u8) == Some(v),
        hexwert((("0123456789ABCDEF"@[v as int]) as u32) as u8) == Some(v),
        hexwert(b) matches Some(w) ==> w < 16 && (b as u32 == "0123456789abcdef"@[w as int] as u32 || b as u32
            == "0123456789ABCDEF"@[w as int] as u32),
{
    lemma_ziffern_tafel(v);
    reveal_strlit("0123456789abcdef");
    assert((("0123456789abcdef"@[v as int]) as u32) as u8 == hexziffer(v));
    if let Some(w) = hexwert(b) {
        lemma_ziffern_tafel(w);
        assert(hexziffer(w) as u32 == "0123456789abcdef"@[w as int] as u32);
        if 48 <= b <= 57 || 97 <= b <= 102 {
            assert(hexziffer(w) == b);
        } else {
            assert(b as u32 == 55 + w);
        }
    }
}

} // verus!
