//! Zeichenketten als Folgen von Zeichen.

use vstd::prelude::*;

verus! {

/// Die Zeichen einer Zeichenkette, der Reihe nach.
pub fn zeichen_von(s: &str) -> (r: Vec<char>)
    ensures
        r@ == s@,
{
    let mut r: Vec<char> = Vec::new();
    for c in it: s.chars()
        invariant
            r@ == it.seq().take(it.index() as int),
            it.seq() == s@,
    {
        r.push(c);
    }
    r
}

/// Haengt ein Zeichen an: `String::push` aus std.
///
/// Die Dokumentation sagt, dass das Zeichen ans Ende kommt; mehr verspricht
/// der Vertrag nicht.
#[verifier::external_body]
pub(crate) fn zeichen_anhaengen(s: &mut String, c: char)
    ensures
        final(s)@ == old(s)@.push(c),
{
    s.push(c);
}

/// Eine Zeichenkette aus einem Abschnitt von Zeichen.
pub fn aus_zeichen(z: &Vec<char>, von: usize, bis: usize) -> (r: String)
    requires
        von <= bis <= z@.len(),
    ensures
        r@ == z@.subrange(von as int, bis as int),
{
    let mut r = String::new();
    let mut i = von;
    while i < bis
        invariant
            von <= i <= bis <= z@.len(),
            r@ == z@.subrange(von as int, i as int),
        decreases bis - i,
    {
        zeichen_anhaengen(&mut r, z[i]);
        assert(r@ =~= z@.subrange(von as int, i + 1));
        i = i + 1;
    }
    r
}

/// Ob zwei Zeichenketten gleich sind.
pub fn gleich(a: &str, b: &str) -> (r: bool)
    ensures
        r == (a@ == b@),
{
    a.to_owned() == b.to_owned()
}

/// `p` ist ein Anfangsstueck von `s`.
pub open spec fn beginnt_mit(s: Seq<char>, p: Seq<char>) -> bool {
    p.len() <= s.len() && s.take(p.len() as int) == p
}

/// Ob `s` mit `p` beginnt.
pub fn beginnt_mit_von(s: &str, p: &str) -> (r: bool)
    ensures
        r == beginnt_mit(s@, p@),
{
    let zs = zeichen_von(s);
    let zp = zeichen_von(p);
    if zp.len() > zs.len() {
        return false;
    }
    let n = zp.len();
    for i in 0..n
        invariant
            n == zp@.len(),
            n <= zs@.len(),
            zs@ == s@,
            zp@ == p@,
            forall|j: int| 0 <= j < i ==> zs@[j] == zp@[j],
    {
        if zs[i] != zp[i] {
            assert(zs@.take(n as int)[i as int] != zp@[i as int]);
            return false;
        }
    }
    assert(zs@.take(n as int) =~= zp@);
    true
}

/// Leerraum nach der Unicode-Eigenschaft White_Space, wie `char::is_whitespace`.
pub open spec fn leerraum(c: char) -> bool {
    let u = c as u32;
    ||| 9 <= u <= 13
    ||| u == 32
    ||| u == 0x85
    ||| u == 0xA0
    ||| u == 0x1680
    ||| 0x2000 <= u <= 0x200A
    ||| u == 0x2028
    ||| u == 0x2029
    ||| u == 0x202F
    ||| u == 0x205F
    ||| u == 0x3000
}

fn ist_leerraum(c: char) -> (r: bool)
    ensures
        r == leerraum(c),
{
    let u = c as u32;
    (9 <= u && u <= 13) || u == 32 || u == 0x85 || u == 0xA0 || u == 0x1680 || (0x2000 <= u && u <= 0x200A)
        || u == 0x2028 || u == 0x2029 || u == 0x202F || u == 0x205F || u == 0x3000
}

/// Ohne Leerraum am Anfang.
pub open spec fn ohne_leerraum_vorn(s: Seq<char>) -> Seq<char>
    decreases s.len(),
{
    if s.len() > 0 && leerraum(s[0]) {
        ohne_leerraum_vorn(s.drop_first())
    } else {
        s
    }
}

/// Ohne Leerraum am Ende.
pub open spec fn ohne_leerraum_hinten(s: Seq<char>) -> Seq<char>
    decreases s.len(),
{
    if s.len() > 0 && leerraum(s.last()) {
        ohne_leerraum_hinten(s.drop_last())
    } else {
        s
    }
}

/// Ohne Leerraum an beiden Enden, wie `str::trim`.
pub open spec fn getrimmt(s: Seq<char>) -> Seq<char> {
    ohne_leerraum_hinten(ohne_leerraum_vorn(s))
}

/// Die Grenzen des Abschnitts ohne Leerraum an den Enden.
pub fn trim_grenzen(z: &Vec<char>) -> (r: (usize, usize))
    ensures
        r.0 <= r.1 <= z@.len(),
        z@.subrange(r.0 as int, r.1 as int) == getrimmt(z@),
{
    let n = z.len();
    let mut a: usize = 0;
    assert(z@.skip(0) =~= z@);
    while a < n && ist_leerraum(z[a])
        invariant
            a <= n == z@.len(),
            ohne_leerraum_vorn(z@) == ohne_leerraum_vorn(z@.skip(a as int)),
        decreases n - a,
    {
        assert(z@.skip(a as int).drop_first() =~= z@.skip(a + 1));
        a = a + 1;
    }
    let ghost v = z@.skip(a as int);
    assert(ohne_leerraum_vorn(z@) == v);
    let mut b: usize = n;
    assert(v.take(v.len() as int) =~= v);
    while b > a && ist_leerraum(z[b - 1])
        invariant
            a <= b <= n == z@.len(),
            v == z@.skip(a as int),
            ohne_leerraum_hinten(v) == ohne_leerraum_hinten(v.take(b - a)),
        decreases b,
    {
        assert(v.take(b - a).drop_last() =~= v.take(b - 1 - a));
        b = b - 1;
    }
    assert(z@.subrange(a as int, b as int) =~= v.take(b - a));
    (a, b)
}

/// Die Dezimalziffern einer Zahl ohne fuehrende Nullen.
pub open spec fn dezimal(z: u64) -> Seq<char>
    decreases z,
{
    if z < 10 {
        seq![((48 + z) as u8) as char]
    } else {
        dezimal(z / 10) + seq![((48 + z % 10) as u8) as char]
    }
}

/// Haengt die Dezimalziffern einer Zahl an.
pub fn dezimal_anhaengen(s: &mut String, z: u64)
    ensures
        final(s)@ == old(s)@ + dezimal(z),
    decreases z,
{
    if z >= 10 {
        dezimal_anhaengen(s, z / 10);
    }
    let d = (48 + z % 10) as u8;
    zeichen_anhaengen(s, d as char);
    assert(final(s)@ =~= old(s)@ + dezimal(z));
}

/// Wie viele Bytes ein Zeichen in UTF-8 braucht.
pub open spec fn breite(c: char) -> nat {
    let u = c as u32;
    if u < 0x80 {
        1
    } else if u < 0x800 {
        2
    } else if u < 0x10000 {
        3
    } else {
        4
    }
}

/// Wie viele Bytes eine Zeichenfolge in UTF-8 braucht.
pub open spec fn utf8_laenge(s: Seq<char>) -> nat
    decreases s.len(),
{
    if s.len() == 0 {
        0
    } else {
        breite(s[0]) + utf8_laenge(s.drop_first())
    }
}

/// Die Zeichen vom Anfang, die zusammen hoechstens `max` Bytes brauchen.
pub open spec fn gekuerzt(s: Seq<char>, max: nat) -> Seq<char>
    decreases s.len(),
{
    if s.len() == 0 || breite(s[0]) > max {
        seq![]
    } else {
        seq![s[0]] + gekuerzt(s.drop_first(), (max - breite(s[0])) as nat)
    }
}

/// `utf8_laenge` ist die Laenge der UTF-8-Kodierung.
pub proof fn gesetz_utf8_laenge(s: Seq<char>)
    ensures
        utf8_laenge(s) == vstd::utf8::encode_utf8(s).len(),
    decreases s.len(),
{
    if s.len() > 0 {
        gesetz_utf8_laenge(s.drop_first());
        vstd::utf8::char_is_scalar(s[0]);
    }
}

/// Das Stueck vor dem ersten `c`, oder alles, wenn `c` nicht vorkommt: das
/// erste Stueck von `str::split`.
pub open spec fn bis_zeichen(s: Seq<char>, c: char) -> Seq<char>
    decreases s.len(),
{
    if s.len() == 0 || s[0] == c {
        seq![]
    } else {
        seq![s[0]] + bis_zeichen(s.drop_first(), c)
    }
}

/// Alles nach dem ersten `c`, wenn `c` vorkommt.
pub open spec fn nach_zeichen(s: Seq<char>, c: char) -> Option<Seq<char>>
    decreases s.len(),
{
    if s.len() == 0 {
        None
    } else if s[0] == c {
        Some(s.drop_first())
    } else {
        nach_zeichen(s.drop_first(), c)
    }
}

/// Die Stelle des ersten `c` ab `von`, oder das Ende.
pub fn erste_stelle(z: &Vec<char>, von: usize, c: char) -> (r: usize)
    requires
        von <= z@.len(),
    ensures
        von <= r <= z@.len(),
        bis_zeichen(z@.skip(von as int), c) == z@.subrange(von as int, r as int),
        nach_zeichen(z@.skip(von as int), c) == (if r < z@.len() {
            Some(z@.skip(r + 1))
        } else {
            None::<Seq<char>>
        }),
        r < z@.len() ==> z@[r as int] == c,
{
    let n = z.len();
    let mut i = von;
    while i < n && z[i] != c
        invariant
            von <= i <= n == z@.len(),
            bis_zeichen(z@.skip(von as int), c) == z@.subrange(von as int, i as int) + bis_zeichen(
                z@.skip(i as int),
                c,
            ),
            nach_zeichen(z@.skip(von as int), c) == nach_zeichen(z@.skip(i as int), c),
        decreases n - i,
    {
        assert(z@.skip(i as int).drop_first() =~= z@.skip(i + 1));
        assert(z@.subrange(von as int, i as int) + (seq![z@[i as int]] + bis_zeichen(z@.skip(i + 1), c))
            =~= z@.subrange(von as int, i + 1) + bis_zeichen(z@.skip(i + 1), c));
        i = i + 1;
    }
    if i < n {
        assert(z@.skip(i as int).drop_first() =~= z@.skip(i + 1));
    }
    assert(z@.subrange(von as int, i as int) + seq![] =~= z@.subrange(von as int, i as int));
    i
}

/// Ohne Leerraum am Anfang bleibt ein Endstueck.
pub proof fn lemma_ohne_vorn_endstueck(s: Seq<char>)
    ensures
        exists|d: int| 0 <= d <= s.len() && #[trigger] s.skip(d) == ohne_leerraum_vorn(s),
    decreases s.len(),
{
    if s.len() > 0 && leerraum(s[0]) {
        lemma_ohne_vorn_endstueck(s.drop_first());
        let d = choose|d: int| 0 <= d <= s.drop_first().len() && #[trigger] s.drop_first().skip(d)
            == ohne_leerraum_vorn(s.drop_first());
        assert(s.skip(d + 1) =~= s.drop_first().skip(d));
    } else {
        assert(s.skip(0) =~= s);
    }
}

/// Ohne Leerraum am Ende bleibt ein Anfangsstueck.
pub proof fn lemma_ohne_hinten_anfang(s: Seq<char>)
    ensures
        exists|d: int| 0 <= d <= s.len() && #[trigger] s.take(d) == ohne_leerraum_hinten(s),
    decreases s.len(),
{
    if s.len() > 0 && leerraum(s.last()) {
        lemma_ohne_hinten_anfang(s.drop_last());
        let d = choose|d: int| 0 <= d <= s.drop_last().len() && #[trigger] s.drop_last().take(d)
            == ohne_leerraum_hinten(s.drop_last());
        assert(s.take(d) =~= s.drop_last().take(d));
    } else {
        assert(s.take(s.len() as int) =~= s);
    }
}

/// Jedes Zeichen des getrimmten Textes steht im Text.
pub proof fn lemma_getrimmt_zeichen(s: Seq<char>, i: int)
    requires
        0 <= i < getrimmt(s).len(),
    ensures
        s.contains(getrimmt(s)[i]),
{
    lemma_ohne_vorn_endstueck(s);
    let d = choose|d: int| 0 <= d <= s.len() && #[trigger] s.skip(d) == ohne_leerraum_vorn(s);
    let t = ohne_leerraum_vorn(s);
    lemma_ohne_hinten_anfang(t);
    let e = choose|e: int| 0 <= e <= t.len() && #[trigger] t.take(e) == ohne_leerraum_hinten(t);
    assert(getrimmt(s)[i] == s[i + d]);
}

/// Gekuerzt bleibt ein Anfangsstueck, das hoechstens `max` Bytes braucht.
pub proof fn lemma_gekuerzt(s: Seq<char>, max: nat)
    ensures
        gekuerzt(s, max).len() <= s.len(),
        gekuerzt(s, max) == s.take(gekuerzt(s, max).len() as int),
        utf8_laenge(gekuerzt(s, max)) <= max,
    decreases s.len(),
{
    if !(s.len() == 0 || breite(s[0]) > max) {
        let m2 = (max - breite(s[0])) as nat;
        lemma_gekuerzt(s.drop_first(), m2);
        let g = gekuerzt(s, max);
        assert(g.drop_first() =~= gekuerzt(s.drop_first(), m2));
        assert(g =~= s.take(g.len() as int));
    } else {
        assert(gekuerzt(s, max) =~= s.take(0));
    }
}

/// Dezimalziffern sind Ziffern.
pub proof fn lemma_dezimal_ziffern(z: u64)
    ensures
        forall|i: int| 0 <= i < dezimal(z).len() ==> '0' <= #[trigger] dezimal(z)[i] <= '9',
    decreases z,
{
    let d = ((48 + z % 10) as u8);
    assert(48 <= d <= 57);
    assert('0' <= (d as char) <= '9');
    if z >= 10 {
        lemma_dezimal_ziffern(z / 10);
        let a = dezimal(z / 10);
        assert forall|i: int| 0 <= i < dezimal(z).len() implies '0' <= #[trigger] dezimal(z)[i] <= '9' by {
            if i < a.len() {
                assert(dezimal(z)[i] == a[i]);
            } else {
                assert(dezimal(z)[i] == (d as char));
            }
        }
    }
}

/// Das Stueck vor dem ersten `c` ist, wenn `c` danach folgt, genau der
/// Anfang ohne `c`.
pub proof fn lemma_bis_zeichen_verkettet(m: Seq<char>, c: char, rest: Seq<char>)
    requires
        !m.contains(c),
    ensures
        bis_zeichen(m + seq![c] + rest, c) == m,
    decreases m.len(),
{
    if m.len() == 0 {
        assert((m + seq![c] + rest)[0] == c);
    } else {
        assert((m + seq![c] + rest).drop_first() =~= m.drop_first() + seq![c] + rest);
        assert(!m.drop_first().contains(c)) by {
            if m.drop_first().contains(c) {
                let j = choose|j: int| 0 <= j < m.drop_first().len() && m.drop_first()[j] == c;
                assert(m[j + 1] == c);
            }
        }
        lemma_bis_zeichen_verkettet(m.drop_first(), c, rest);
        assert(seq![m[0]] + m.drop_first() =~= m);
    }
}

/// Ohne `c` ist das Stueck vor dem ersten `c` alles.
pub proof fn lemma_bis_zeichen_ohne(m: Seq<char>, c: char)
    requires
        !m.contains(c),
    ensures
        bis_zeichen(m, c) == m,
    decreases m.len(),
{
    if m.len() > 0 {
        assert(!m.drop_first().contains(c)) by {
            if m.drop_first().contains(c) {
                let j = choose|j: int| 0 <= j < m.drop_first().len() && m.drop_first()[j] == c;
                assert(m[j + 1] == c);
            }
        }
        lemma_bis_zeichen_ohne(m.drop_first(), c);
        assert(seq![m[0]] + m.drop_first() =~= m);
    }
}

/// Die UTF-8-Kodierung einer Verkettung ist die Verkettung der Kodierungen.
pub proof fn lemma_utf8_verkettet(a: Seq<char>, b: Seq<char>)
    ensures
        vstd::utf8::encode_utf8(a + b) == vstd::utf8::encode_utf8(a) + vstd::utf8::encode_utf8(b),
    decreases a.len(),
{
    if a.len() == 0 {
        assert(a + b =~= b);
        assert(vstd::utf8::encode_utf8(a) =~= Seq::<u8>::empty());
        assert(Seq::<u8>::empty() + vstd::utf8::encode_utf8(b) =~= vstd::utf8::encode_utf8(b));
    } else {
        assert((a + b).drop_first() =~= a.drop_first() + b);
        assert((a + b)[0] == a[0]);
        lemma_utf8_verkettet(a.drop_first(), b);
        let e0 = vstd::utf8::encode_scalar(a[0] as u32);
        assert(e0 + (vstd::utf8::encode_utf8(a.drop_first()) + vstd::utf8::encode_utf8(b)) =~= (e0
            + vstd::utf8::encode_utf8(a.drop_first())) + vstd::utf8::encode_utf8(b));
    }
}

/// Faellt die Grenze zwischen zwei Zeichen, so sind die Bytes des
/// Gekuerzten genau die ersten `max` Bytes des Ganzen: dasselbe, was
/// `String::truncate(max)` stehen laesst.
pub proof fn gesetz_kuerzen_wie_truncate(s: Seq<char>, max: nat)
    requires
        utf8_laenge(gekuerzt(s, max)) == max,
    ensures
        vstd::utf8::encode_utf8(gekuerzt(s, max)) == vstd::utf8::encode_utf8(s).take(max as int),
{
    lemma_gekuerzt(s, max);
    let k = gekuerzt(s, max).len() as int;
    assert(s =~= s.take(k) + s.skip(k));
    lemma_utf8_verkettet(s.take(k), s.skip(k));
    gesetz_utf8_laenge(s.take(k));
    let ea = vstd::utf8::encode_utf8(s.take(k));
    assert((ea + vstd::utf8::encode_utf8(s.skip(k))).take(max as int) =~= ea);
}

/// Nur Leerraum.
pub open spec fn nur_leerraum(w: Seq<char>) -> bool {
    forall|i: int| 0 <= i < w.len() ==> leerraum(#[trigger] w[i])
}

/// Leerraum vorne verschwindet mit dem uebrigen Leerraum am Anfang.
pub proof fn lemma_ohne_vorn_davor(w: Seq<char>, s: Seq<char>)
    requires
        nur_leerraum(w),
    ensures
        ohne_leerraum_vorn(w + s) == ohne_leerraum_vorn(s),
    decreases w.len(),
{
    if w.len() == 0 {
        assert(w + s =~= s);
    } else {
        assert((w + s)[0] == w[0]);
        assert((w + s).drop_first() =~= w.drop_first() + s);
        assert(nur_leerraum(w.drop_first())) by {
            assert forall|i: int| 0 <= i < w.drop_first().len() implies leerraum(#[trigger] w.drop_first()[i]) by {
                assert(w.drop_first()[i] == w[i + 1]);
            }
        }
        lemma_ohne_vorn_davor(w.drop_first(), s);
    }
}

/// Leerraum hinten verschwindet mit dem uebrigen Leerraum am Ende.
pub proof fn lemma_ohne_hinten_danach(s: Seq<char>, w: Seq<char>)
    requires
        nur_leerraum(w),
    ensures
        ohne_leerraum_hinten(s + w) == ohne_leerraum_hinten(s),
    decreases w.len(),
{
    if w.len() == 0 {
        assert(s + w =~= s);
    } else {
        assert((s + w).last() == w.last());
        assert((s + w).drop_last() =~= s + w.drop_last());
        assert(nur_leerraum(w.drop_last())) by {
            assert forall|i: int| 0 <= i < w.drop_last().len() implies leerraum(#[trigger] w.drop_last()[i]) by {
                assert(w.drop_last()[i] == w[i]);
            }
        }
        lemma_ohne_hinten_danach(s, w.drop_last());
    }
}

/// Leerraum am Anfang einer Verkettung: steht im ersten Teil noch etwas
/// anderes, bleibt der zweite Teil ganz stehen.
pub proof fn lemma_ohne_vorn_verkettet(s: Seq<char>, t: Seq<char>)
    ensures
        ohne_leerraum_vorn(s + t) == if ohne_leerraum_vorn(s).len() > 0 {
            ohne_leerraum_vorn(s) + t
        } else {
            ohne_leerraum_vorn(t)
        },
    decreases s.len(),
{
    if s.len() == 0 {
        assert(s + t =~= t);
    } else {
        assert((s + t)[0] == s[0]);
        if leerraum(s[0]) {
            assert((s + t).drop_first() =~= s.drop_first() + t);
            lemma_ohne_vorn_verkettet(s.drop_first(), t);
        }
    }
}

/// Leerraum an den Enden aendert das Getrimmte nicht.
pub proof fn lemma_getrimmt_umrahmt(w1: Seq<char>, s: Seq<char>, w2: Seq<char>)
    requires
        nur_leerraum(w1),
        nur_leerraum(w2),
    ensures
        getrimmt(w1 + s + w2) == getrimmt(s),
{
    assert(w1 + s + w2 =~= w1 + (s + w2));
    lemma_ohne_vorn_davor(w1, s + w2);
    lemma_ohne_vorn_verkettet(s, w2);
    if ohne_leerraum_vorn(s).len() > 0 {
        lemma_ohne_hinten_danach(ohne_leerraum_vorn(s), w2);
    } else {
        lemma_ohne_vorn_davor(w2, Seq::empty());
        assert(w2 + Seq::<char>::empty() =~= w2);
    }
}

/// Was vor dem ersten `c` steht, wenn ein Anfang ohne `c` davor kommt.
pub proof fn lemma_bis_zeichen_davor(w: Seq<char>, s: Seq<char>, c: char)
    requires
        !w.contains(c),
    ensures
        bis_zeichen(w + s, c) == w + bis_zeichen(s, c),
    decreases w.len(),
{
    if w.len() == 0 {
        assert(w + s =~= s);
        assert(w + bis_zeichen(s, c) =~= bis_zeichen(s, c));
    } else {
        assert((w + s)[0] == w[0]);
        assert((w + s).drop_first() =~= w.drop_first() + s);
        assert(!w.drop_first().contains(c)) by {
            if w.drop_first().contains(c) {
                let j = choose|j: int| 0 <= j < w.drop_first().len() && w.drop_first()[j] == c;
                assert(w[j + 1] == c);
            }
        }
        lemma_bis_zeichen_davor(w.drop_first(), s, c);
        assert(seq![w[0]] + (w.drop_first() + bis_zeichen(s, c)) =~= w + bis_zeichen(s, c));
    }
}

/// Was vor dem ersten `c` einer Verkettung steht.
pub proof fn lemma_bis_zeichen_anhang(s: Seq<char>, t: Seq<char>, c: char)
    ensures
        bis_zeichen(s + t, c) == if s.contains(c) {
            bis_zeichen(s, c)
        } else {
            s + bis_zeichen(t, c)
        },
    decreases s.len(),
{
    if s.len() == 0 {
        assert(s + t =~= t);
        assert(s + bis_zeichen(t, c) =~= bis_zeichen(t, c));
    } else {
        assert((s + t)[0] == s[0]);
        assert((s + t).drop_first() =~= s.drop_first() + t);
        lemma_bis_zeichen_anhang(s.drop_first(), t, c);
        if s[0] != c {
            assert(s.contains(c) == s.drop_first().contains(c)) by {
                if s.contains(c) {
                    let j = choose|j: int| 0 <= j < s.len() && s[j] == c;
                    assert(s.drop_first()[j - 1] == c);
                }
                if s.drop_first().contains(c) {
                    let j = choose|j: int| 0 <= j < s.drop_first().len() && s.drop_first()[j] == c;
                    assert(s[j + 1] == c);
                }
            }
            assert(seq![s[0]] + (s.drop_first() + bis_zeichen(t, c)) =~= s + bis_zeichen(t, c));
        } else {
            assert(s.contains(c)) by {
                assert(s[0] == c);
            }
        }
    }
}

proof fn lemma_ohne_vorn_rand(s: Seq<char>)
    ensures
        ohne_leerraum_vorn(s).len() > 0 ==> !leerraum(ohne_leerraum_vorn(s)[0]),
    decreases s.len(),
{
    if s.len() > 0 && leerraum(s[0]) {
        lemma_ohne_vorn_rand(s.drop_first());
    }
}

proof fn lemma_ohne_hinten_rand(s: Seq<char>)
    ensures
        ohne_leerraum_hinten(s).len() > 0 ==> !leerraum(ohne_leerraum_hinten(s).last()),
    decreases s.len(),
{
    if s.len() > 0 && leerraum(s.last()) {
        lemma_ohne_hinten_rand(s.drop_last());
    }
}

/// Das Getrimmte beginnt und endet, wenn es nicht leer ist, nicht mit
/// Leerraum.
pub proof fn lemma_getrimmt_raender(s: Seq<char>)
    ensures
        getrimmt(s).len() > 0 ==> !leerraum(getrimmt(s)[0]) && !leerraum(getrimmt(s).last()),
{
    let y = ohne_leerraum_vorn(s);
    lemma_ohne_vorn_rand(s);
    lemma_ohne_hinten_rand(y);
    lemma_ohne_hinten_anfang(y);
    let d = choose|d: int| 0 <= d <= y.len() && #[trigger] y.take(d) == ohne_leerraum_hinten(y);
    if getrimmt(s).len() > 0 {
        assert(getrimmt(s)[0] == y[0]);
    }
}

/// Ein Text, der nicht mit Leerraum beginnt oder endet, ist schon getrimmt.
pub proof fn lemma_getrimmt_fest(s: Seq<char>)
    requires
        s.len() > 0,
        !leerraum(s[0]),
        !leerraum(s.last()),
    ensures
        getrimmt(s) == s,
{
}

/// Der Zahlenwert einer Folge von Dezimalziffern.
pub open spec fn ziffernwert(s: Seq<char>) -> int
    decreases s.len(),
{
    if s.len() == 0 {
        0
    } else {
        10 * ziffernwert(s.drop_last()) + (s.last() as int - 48)
    }
}

/// Die Dezimalziffern einer Zahl lesen sich als genau diese Zahl, und eine
/// fuehrende Null gibt es nur bei der Null selbst.
pub proof fn gesetz_dezimal_wert(z: u64)
    ensures
        dezimal(z).len() > 0,
        ziffernwert(dezimal(z)) == z,
        dezimal(z)[0] == '0' ==> z == 0,
    decreases z,
{
    let d = (48 + z % 10) as u8;
    assert(d as char as int == 48 + z % 10);
    assert(dezimal(z).last() == d as char);
    assert(dezimal(z).len() > 0);
    assert(ziffernwert(dezimal(z)) == 10 * ziffernwert(dezimal(z).drop_last()) + (dezimal(z).last() as int - 48));
    if z >= 10 {
        gesetz_dezimal_wert(z / 10);
        let a = dezimal(z / 10);
        assert(dezimal(z).drop_last() =~= a);
        assert(dezimal(z)[0] == a[0]);
        assert(z == 10 * (z / 10) + z % 10);
    } else {
        assert(dezimal(z).drop_last() =~= Seq::<char>::empty());
        assert(ziffernwert(dezimal(z).drop_last()) == 0);
    }
}

} // verus!
