//! Der Schnappschuss, den die Oberflaeche zu sehen bekommt: die Chatliste
//! und der Verlauf jeder Unterhaltung, dazu ein Zaehler, der jede Aenderung
//! zaehlt.

use vstd::prelude::*;

use crate::kennung::{ist_gruppe, ist_gruppe_spec};

verus! {

/// Eine Unterhaltung in der Chatliste.
#[derive(Clone)]
pub struct Chat {
    pub jid: String,
    pub name: String,
    pub is_group: bool,
    pub last_message: String,
    pub last_time: u64,
    pub from_me: bool,
}

/// Eine Nachricht im Verlauf einer Unterhaltung.
#[derive(Clone)]
pub struct Nachricht {
    pub id: String,
    pub chat_jid: String,
    pub sender: String,
    pub text: String,
    pub from_me: bool,
    pub timestamp: u64,
}

/// Ein Chat als mathematischer Wert.
pub struct ChatSicht {
    pub jid: Seq<char>,
    pub name: Seq<char>,
    pub is_group: bool,
    pub last_message: Seq<char>,
    pub last_time: u64,
    pub from_me: bool,
}

/// Eine Nachricht als mathematischer Wert.
pub struct NachrichtSicht {
    pub id: Seq<char>,
    pub chat_jid: Seq<char>,
    pub sender: Seq<char>,
    pub text: Seq<char>,
    pub from_me: bool,
    pub timestamp: u64,
}

impl View for Chat {
    type V = ChatSicht;

    open spec fn view(&self) -> ChatSicht {
        ChatSicht {
            jid: self.jid@,
            name: self.name@,
            is_group: self.is_group,
            last_message: self.last_message@,
            last_time: self.last_time,
            from_me: self.from_me,
        }
    }
}

impl View for Nachricht {
    type V = NachrichtSicht;

    open spec fn view(&self) -> NachrichtSicht {
        NachrichtSicht {
            id: self.id@,
            chat_jid: self.chat_jid@,
            sender: self.sender@,
            text: self.text@,
            from_me: self.from_me,
            timestamp: self.timestamp,
        }
    }
}

impl Chat {
    /// Eine Kopie mit denselben Feldern.
    pub fn kopie(&self) -> (r: Chat)
        ensures
            r@ == self@,
    {
        Chat {
            jid: self.jid.clone(),
            name: self.name.clone(),
            is_group: self.is_group,
            last_message: self.last_message.clone(),
            last_time: self.last_time,
            from_me: self.from_me,
        }
    }
}

impl Nachricht {
    /// Eine Kopie mit denselben Feldern.
    pub fn kopie(&self) -> (r: Nachricht)
        ensures
            r@ == self@,
    {
        Nachricht {
            id: self.id.clone(),
            chat_jid: self.chat_jid.clone(),
            sender: self.sender.clone(),
            text: self.text.clone(),
            from_me: self.from_me,
            timestamp: self.timestamp,
        }
    }
}

/// Der Verlauf einer Unterhaltung.
struct Verlauf {
    jid: String,
    nachrichten: Vec<Nachricht>,
}

/// Die Chatliste und die Verlaeufe.
///
/// Beide sind nach der Kennung der Unterhaltung gefuehrt; jede Kennung
/// kommt hoechstens einmal vor.
pub struct Schnappschuss {
    chats: Vec<Chat>,
    verlaeufe: Vec<Verlauf>,
    /// Zaehlt jede Aenderung. Die Oberflaeche haengt daran statt zu pollen.
    pub folge: u64,
}

/// Der Schnappschuss als mathematischer Wert: zwei Abbildungen von der
/// Kennung einer Unterhaltung auf ihren Chat und ihren Verlauf.
pub struct SchnappschussSicht {
    pub chats: Map<Seq<char>, ChatSicht>,
    pub verlaeufe: Map<Seq<char>, Seq<NachrichtSicht>>,
    pub folge: u64,
}

/// Eine Folge von Schluessel-Wert-Paaren als Abbildung; spaetere Paare
/// ueberdecken fruehere.
pub open spec fn als_map<V>(s: Seq<(Seq<char>, V)>) -> Map<Seq<char>, V>
    decreases s.len(),
{
    if s.len() == 0 {
        Map::empty()
    } else {
        als_map(s.drop_last()).insert(s.last().0, s.last().1)
    }
}

/// Kein Schluessel kommt zweimal vor.
pub open spec fn schluessel_eindeutig<V>(s: Seq<(Seq<char>, V)>) -> bool {
    forall|i: int, j: int|
        0 <= i < s.len() && 0 <= j < s.len() && i != j ==> #[trigger] s[i].0 != #[trigger] s[j].0
}

/// Die Nachrichten als mathematische Werte.
pub open spec fn nachrichten_sicht(v: Seq<Nachricht>) -> Seq<NachrichtSicht> {
    v.map_values(|m: Nachricht| m@)
}

/// Die Chats als Paare aus Kennung und Chat.
pub open spec fn chat_paare(v: Seq<Chat>) -> Seq<(Seq<char>, ChatSicht)> {
    v.map_values(|c: Chat| (c.jid@, c@))
}

spec fn verlauf_paare(v: Seq<Verlauf>) -> Seq<(Seq<char>, Seq<NachrichtSicht>)> {
    v.map_values(|e: Verlauf| (e.jid@, nachrichten_sicht(e.nachrichten@)))
}

/// Nach Zeitstempel aufsteigend geordnet.
pub open spec fn zeitlich_geordnet(v: Seq<NachrichtSicht>) -> bool {
    forall|i: int, j: int| 0 <= i <= j < v.len() ==> #[trigger] v[i].timestamp <= #[trigger] v[j].timestamp
}

/// Keine Kennung einer Nachricht kommt zweimal vor.
pub open spec fn ids_eindeutig(v: Seq<NachrichtSicht>) -> bool {
    forall|i: int, j: int| 0 <= i < v.len() && 0 <= j < v.len() && i != j ==> #[trigger] v[i].id != #[trigger] v[j].id
}

/// Ob eine Nachricht mit dieser Kennung im Verlauf steht.
pub open spec fn hat_id(v: Seq<NachrichtSicht>, id: Seq<char>) -> bool {
    exists|i: int| 0 <= i < v.len() && #[trigger] v[i].id == id
}

/// Was fuer jeden Schnappschuss gilt: jeder Chat steht unter seiner eigenen
/// Kennung und ist genau dann eine Gruppe, wenn die Kennung es sagt; jeder
/// Verlauf ist nach Zeit geordnet und fuehrt jede Nachricht nur einmal.
pub open spec fn sicht_wohlgeformt(s: SchnappschussSicht) -> bool {
    chats_wohlgeformt(s.chats) && verlaeufe_wohlgeformt(s.verlaeufe)
}

/// Jeder Chat steht unter seiner eigenen Kennung und ist genau dann eine
/// Gruppe, wenn die Kennung es sagt.
pub open spec fn chats_wohlgeformt(m: Map<Seq<char>, ChatSicht>) -> bool {
    forall|k: Seq<char>| #[trigger] m.contains_key(k) ==> m[k].jid == k && m[k].is_group == ist_gruppe_spec(k)
}

/// Alle Nachrichten gehoeren zur Unterhaltung `k`.
pub open spec fn gehoeren_zu(v: Seq<NachrichtSicht>, k: Seq<char>) -> bool {
    forall|i: int| 0 <= i < v.len() ==> #[trigger] v[i].chat_jid == k
}

/// Jeder Verlauf ist nach Zeit geordnet, fuehrt jede Nachricht nur einmal
/// und haelt nur Nachrichten seiner eigenen Unterhaltung.
pub open spec fn verlaeufe_wohlgeformt(m: Map<Seq<char>, Seq<NachrichtSicht>>) -> bool {
    forall|k: Seq<char>| #[trigger] m.contains_key(k) ==> zeitlich_geordnet(m[k]) && ids_eindeutig(m[k])
        && gehoeren_zu(m[k], k)
}

impl View for Schnappschuss {
    type V = SchnappschussSicht;

    closed spec fn view(&self) -> SchnappschussSicht {
        SchnappschussSicht {
            chats: als_map(chat_paare(self.chats@)),
            verlaeufe: als_map(verlauf_paare(self.verlaeufe@)),
            folge: self.folge,
        }
    }
}

impl Schnappschuss {
    /// Der Schnappschuss haelt seine Ordnung.
    pub closed spec fn wohlgeformt(&self) -> bool {
        &&& schluessel_eindeutig(chat_paare(self.chats@))
        &&& schluessel_eindeutig(verlauf_paare(self.verlaeufe@))
        &&& sicht_wohlgeformt(self@)
    }
}

proof fn lemma_als_map_enthaelt<V>(s: Seq<(Seq<char>, V)>, k: Seq<char>)
    ensures
        als_map(s).contains_key(k) <==> exists|i: int| 0 <= i < s.len() && #[trigger] s[i].0 == k,
    decreases s.len(),
{
    if s.len() > 0 {
        let t = s.drop_last();
        lemma_als_map_enthaelt(t, k);
        if als_map(t).contains_key(k) {
            let i = choose|i: int| 0 <= i < t.len() && #[trigger] t[i].0 == k;
            assert(s[i].0 == k);
        }
        if exists|i: int| 0 <= i < s.len() && #[trigger] s[i].0 == k {
            let i = choose|i: int| 0 <= i < s.len() && #[trigger] s[i].0 == k;
            if i < s.len() - 1 {
                assert(t[i].0 == k);
            }
        }
    }
}

proof fn lemma_als_map_wert<V>(s: Seq<(Seq<char>, V)>, i: int)
    requires
        schluessel_eindeutig(s),
        0 <= i < s.len(),
    ensures
        als_map(s).contains_key(s[i].0),
        als_map(s)[s[i].0] == s[i].1,
    decreases s.len(),
{
    let t = s.drop_last();
    if i < s.len() - 1 {
        assert(schluessel_eindeutig(t));
        assert(t[i] == s[i]);
        lemma_als_map_wert(t, i);
        assert(s[i].0 != s[s.len() - 1].0);
    }
}

proof fn lemma_als_map_aendern<V>(s: Seq<(Seq<char>, V)>, i: int, v: V)
    requires
        schluessel_eindeutig(s),
        0 <= i < s.len(),
    ensures
        schluessel_eindeutig(s.update(i, (s[i].0, v))),
        als_map(s.update(i, (s[i].0, v))) == als_map(s).insert(s[i].0, v),
{
    let t = s.update(i, (s[i].0, v));
    let m = als_map(s).insert(s[i].0, v);
    assert(schluessel_eindeutig(t)) by {
        assert forall|a: int, b: int| 0 <= a < t.len() && 0 <= b < t.len() && a != b implies #[trigger] t[a].0
            != #[trigger] t[b].0 by {
            assert(t[a].0 == s[a].0 && t[b].0 == s[b].0);
        }
    }
    assert forall|k: Seq<char>| #[trigger] als_map(t).contains_key(k) <==> m.contains_key(k) by {
        lemma_als_map_enthaelt(t, k);
        lemma_als_map_enthaelt(s, k);
        if exists|j: int| 0 <= j < t.len() && #[trigger] t[j].0 == k {
            let j = choose|j: int| 0 <= j < t.len() && #[trigger] t[j].0 == k;
            assert(s[j].0 == k);
        }
        if exists|j: int| 0 <= j < s.len() && #[trigger] s[j].0 == k {
            let j = choose|j: int| 0 <= j < s.len() && #[trigger] s[j].0 == k;
            assert(t[j].0 == k);
        }
    }
    assert forall|k: Seq<char>| #[trigger] als_map(t).contains_key(k) implies als_map(t)[k] == m[k] by {
        lemma_als_map_enthaelt(t, k);
        let j = choose|j: int| 0 <= j < t.len() && #[trigger] t[j].0 == k;
        lemma_als_map_wert(t, j);
        lemma_als_map_wert(s, j);
    }
    assert(als_map(t) =~= m);
}

spec fn kommt_vor(h: Seq<int>, j: int) -> bool {
    exists|p: int| 0 <= p < h.len() && #[trigger] h[p] == j
}

/// Der Chat, der fuer eine bisher unbekannte Unterhaltung angelegt wird.
pub open spec fn neuer_chat(jid: Seq<char>, chatname: Seq<char>) -> ChatSicht {
    ChatSicht {
        jid: jid,
        name: chatname,
        is_group: ist_gruppe_spec(jid),
        last_message: Seq::empty(),
        last_time: 0,
        from_me: false,
    }
}

/// Ein Chat nach einer Nachricht: ein nicht leerer Name ersetzt den alten;
/// ist die Nachricht nicht aelter als die letzte, wird sie die letzte.
pub open spec fn chat_fortgeschrieben(alt: ChatSicht, n: NachrichtSicht, chatname: Seq<char>) -> ChatSicht {
    let c = if chatname.len() > 0 {
        ChatSicht { name: chatname, ..alt }
    } else {
        alt
    };
    if n.timestamp >= c.last_time {
        ChatSicht { last_time: n.timestamp, last_message: n.text, from_me: n.from_me, ..c }
    } else {
        c
    }
}

/// Wo eine Nachricht mit Zeitstempel `ts` in einen geordneten Verlauf
/// gehoert: hinter alle, die nicht juenger sind.
pub open spec fn einsortier_pos(v: Seq<NachrichtSicht>, ts: u64) -> int
    decreases v.len(),
{
    if v.len() == 0 || v.last().timestamp <= ts {
        v.len() as int
    } else {
        einsortier_pos(v.drop_last(), ts)
    }
}

/// Der Verlauf mit der Nachricht an ihrem Platz.
pub open spec fn einsortiert(v: Seq<NachrichtSicht>, n: NachrichtSicht) -> Seq<NachrichtSicht> {
    v.insert(einsortier_pos(v, n.timestamp), n)
}

/// Der Verlauf einer Unterhaltung, leer, wenn sie keinen hat.
pub open spec fn verlauf_von(s: SchnappschussSicht, jid: Seq<char>) -> Seq<NachrichtSicht> {
    if s.verlaeufe.contains_key(jid) {
        s.verlaeufe[jid]
    } else {
        Seq::empty()
    }
}

/// Ob `eintragen` diese Nachricht aufnimmt: nur, wenn ihre Kennung im
/// Verlauf ihrer Unterhaltung noch nicht vorkommt.
pub open spec fn wird_aufgenommen(s: SchnappschussSicht, n: NachrichtSicht) -> bool {
    !hat_id(verlauf_von(s, n.chat_jid), n.id)
}

/// Ob `eintragen` den Chat der Unterhaltung aendert: ihn anlegt oder
/// einen seiner Werte fortschreibt.
pub open spec fn chat_aendert(s: SchnappschussSicht, n: NachrichtSicht, chatname: Seq<char>) -> bool {
    let k = n.chat_jid;
    !s.chats.contains_key(k) || chat_fortgeschrieben(s.chats[k], n, chatname) != s.chats[k]
}

/// Ob `eintragen` etwas aendert: den Chat oder den Verlauf.
pub open spec fn eintragen_aendert(s: SchnappschussSicht, n: NachrichtSicht, chatname: Seq<char>) -> bool {
    wird_aufgenommen(s, n) || chat_aendert(s, n, chatname)
}

/// Der Schnappschuss nach `eintragen`. Der Zaehler steigt um eins, wenn
/// sich Chatliste oder Verlaeufe aendern, sonst bleibt er.
pub open spec fn eintragen_spec(s: SchnappschussSicht, n: NachrichtSicht, chatname: Seq<char>) -> SchnappschussSicht {
    let k = n.chat_jid;
    let alt = if s.chats.contains_key(k) {
        s.chats[k]
    } else {
        neuer_chat(k, chatname)
    };
    SchnappschussSicht {
        chats: s.chats.insert(k, chat_fortgeschrieben(alt, n, chatname)),
        verlaeufe: if wird_aufgenommen(s, n) {
            s.verlaeufe.insert(k, einsortiert(verlauf_von(s, k), n))
        } else {
            s.verlaeufe
        },
        folge: if eintragen_aendert(s, n, chatname) {
            (s.folge + 1) as u64
        } else {
            s.folge
        },
    }
}

/// Der Schnappschuss nach `chatname_setzen`.
pub open spec fn chatname_spec(s: SchnappschussSicht, jid: Seq<char>, name: Seq<char>) -> SchnappschussSicht {
    if s.chats.contains_key(jid) && s.chats[jid].name != name {
        SchnappschussSicht {
            chats: s.chats.insert(jid, ChatSicht { name: name, ..s.chats[jid] }),
            folge: (s.folge + 1) as u64,
            ..s
        }
    } else {
        s
    }
}

proof fn lemma_einsortier_pos(v: Seq<NachrichtSicht>, ts: u64)
    ensures
        0 <= einsortier_pos(v, ts) <= v.len(),
        forall|j: int| einsortier_pos(v, ts) <= j < v.len() ==> #[trigger] v[j].timestamp > ts,
        einsortier_pos(v, ts) > 0 ==> v[einsortier_pos(v, ts) - 1].timestamp <= ts,
    decreases v.len(),
{
    if v.len() > 0 && v.last().timestamp > ts {
        let t = v.drop_last();
        lemma_einsortier_pos(t, ts);
        assert forall|j: int| einsortier_pos(v, ts) <= j < v.len() implies #[trigger] v[j].timestamp > ts by {
            if j < v.len() - 1 {
                assert(t[j] == v[j]);
            }
        }
    }
}

proof fn lemma_einsortiert_stellen(v: Seq<NachrichtSicht>, n: NachrichtSicht)
    ensures
        einsortiert(v, n).len() == v.len() + 1,
        forall|j: int| 0 <= j < v.len() + 1 ==> #[trigger] einsortiert(v, n)[j] == (if j < einsortier_pos(
            v,
            n.timestamp,
        ) {
            v[j]
        } else if j == einsortier_pos(v, n.timestamp) {
            n
        } else {
            v[j - 1]
        }),
{
    lemma_einsortier_pos(v, n.timestamp);
}

/// Einsortieren haelt einen Verlauf geordnet und fuehrt jede Kennung
/// weiterhin nur einmal, wenn die neue noch nicht darin stand.
pub proof fn gesetz_einsortieren(v: Seq<NachrichtSicht>, n: NachrichtSicht)
    requires
        zeitlich_geordnet(v),
        ids_eindeutig(v),
        !hat_id(v, n.id),
    ensures
        zeitlich_geordnet(einsortiert(v, n)),
        ids_eindeutig(einsortiert(v, n)),
        einsortiert(v, n).to_multiset() == v.to_multiset().insert(n),
{
    let p = einsortier_pos(v, n.timestamp);
    lemma_einsortier_pos(v, n.timestamp);
    let w = einsortiert(v, n);
    assert(w.len() == v.len() + 1);
    assert forall|j: int| 0 <= j < w.len() implies #[trigger] w[j] == (if j < p { v[j] } else if j == p { n } else { v[j - 1] }) by {
    }
    assert forall|i: int, j: int| 0 <= i <= j < w.len() implies #[trigger] w[i].timestamp <= #[trigger] w[j].timestamp by {
        if i < p && j == p {
            assert(v[i].timestamp <= v[p - 1].timestamp);
        }
    }
    assert forall|i: int, j: int| 0 <= i < w.len() && 0 <= j < w.len() && i != j implies #[trigger] w[i].id != #[trigger] w[j].id by {
        if i == p {
            let jj = if j < p { j } else { j - 1 };
            assert(v[jj].id != n.id);
        } else if j == p {
            let ii = if i < p { i } else { i - 1 };
            assert(v[ii].id != n.id);
        }
    }
    v.insert_ensures(p, n);
    assert(w.remove(p) =~= v);
    w.to_multiset_ensures();
    assert(w.contains(n));
    assert(v.to_multiset() =~= w.to_multiset().remove(n));
    assert(w.to_multiset() =~= v.to_multiset().insert(n)) by {
        broadcast use vstd::multiset::group_multiset_axioms;
    }
}

fn chat_index(chats: &Vec<Chat>, jid: &String) -> (r: Option<usize>)
    ensures
        match r {
            Some(i) => i < chats@.len() && chats@[i as int].jid@ == jid@,
            None => forall|i: int| 0 <= i < chats@.len() ==> #[trigger] chats@[i].jid@ != jid@,
        },
{
    let n = chats.len();
    for i in 0..n
        invariant
            n == chats@.len(),
            forall|j: int| 0 <= j < i ==> #[trigger] chats@[j].jid@ != jid@,
    {
        if chats[i].jid == *jid {
            return Some(i);
        }
    }
    None
}

fn verlauf_index(verlaeufe: &Vec<Verlauf>, jid: &String) -> (r: Option<usize>)
    ensures
        match r {
            Some(i) => i < verlaeufe@.len() && verlaeufe@[i as int].jid@ == jid@,
            None => forall|i: int| 0 <= i < verlaeufe@.len() ==> #[trigger] verlaeufe@[i].jid@ != jid@,
        },
{
    let n = verlaeufe.len();
    for i in 0..n
        invariant
            n == verlaeufe@.len(),
            forall|j: int| 0 <= j < i ==> #[trigger] verlaeufe@[j].jid@ != jid@,
    {
        if verlaeufe[i].jid == *jid {
            return Some(i);
        }
    }
    None
}

fn enthaelt_id(v: &Vec<Nachricht>, id: &String) -> (r: bool)
    ensures
        r == hat_id(nachrichten_sicht(v@), id@),
{
    let n = v.len();
    for i in 0..n
        invariant
            n == v@.len(),
            forall|j: int| 0 <= j < i ==> #[trigger] v@[j].id@ != id@,
    {
        if v[i].id == *id {
            assert(nachrichten_sicht(v@)[i as int].id == id@);
            return true;
        }
    }
    assert forall|j: int| 0 <= j < v@.len() implies #[trigger] nachrichten_sicht(v@)[j].id != id@ by {
        assert(v@[j].id@ != id@);
    }
    false
}

fn einsortier_position(v: &Vec<Nachricht>, ts: u64) -> (r: usize)
    ensures
        r == einsortier_pos(nachrichten_sicht(v@), ts),
{
    let ghost s = nachrichten_sicht(v@);
    let mut k = v.len();
    assert(s.take(k as int) =~= s);
    while k > 0 && v[k - 1].timestamp > ts
        invariant
            k <= v@.len(),
            s == nachrichten_sicht(v@),
            einsortier_pos(s, ts) == einsortier_pos(s.take(k as int), ts),
        decreases k,
    {
        assert(s.take(k as int).drop_last() =~= s.take(k - 1));
        k = k - 1;
    }
    k
}

proof fn lemma_als_map_anhaengen<V>(s: Seq<(Seq<char>, V)>, k: Seq<char>, v: V)
    requires
        schluessel_eindeutig(s),
        forall|i: int| 0 <= i < s.len() ==> #[trigger] s[i].0 != k,
    ensures
        schluessel_eindeutig(s.push((k, v))),
        als_map(s.push((k, v))) == als_map(s).insert(k, v),
{
    let t = s.push((k, v));
    assert(t.drop_last() =~= s);
    assert forall|a: int, b: int| 0 <= a < t.len() && 0 <= b < t.len() && a != b implies #[trigger] t[a].0
        != #[trigger] t[b].0 by {
        if a < s.len() && b < s.len() {
            assert(t[a] == s[a] && t[b] == s[b]);
        } else if a < s.len() {
            assert(t[a] == s[a]);
        } else {
            assert(t[b] == s[b]);
        }
    }
}

impl Default for Schnappschuss {
    /// Ein leerer Schnappschuss: keine Chats, keine Verlaeufe, Zaehler null.
    fn default() -> (r: Self)
        ensures
            r.wohlgeformt(),
            r@.chats == Map::<Seq<char>, ChatSicht>::empty(),
            r@.verlaeufe == Map::<Seq<char>, Seq<NachrichtSicht>>::empty(),
            r@.folge == 0,
    {
        let r = Schnappschuss { chats: Vec::new(), verlaeufe: Vec::new(), folge: 0 };
        assert(chat_paare(r.chats@) =~= Seq::empty());
        assert(verlauf_paare(r.verlaeufe@) =~= Seq::empty());
        r
    }
}

impl Schnappschuss {
    /// Der Verlauf einer Unterhaltung, leer, wenn sie keinen hat.
    pub fn verlauf(&self, jid: &str) -> (r: Vec<Nachricht>)
        requires
            self.wohlgeformt(),
        ensures
            nachrichten_sicht(r@) == verlauf_von(self@, jid@),
            zeitlich_geordnet(nachrichten_sicht(r@)),
            ids_eindeutig(nachrichten_sicht(r@)),
            gehoeren_zu(nachrichten_sicht(r@), jid@),
    {
        proof {
            gesetz_verlauf_geordnet(self@, jid@);
        }
        let jid_s = jid.to_owned();
        match verlauf_index(&self.verlaeufe, &jid_s) {
            None => {
                proof {
                    lemma_als_map_enthaelt(verlauf_paare(self.verlaeufe@), jid@);
                    if exists|i: int| 0 <= i < verlauf_paare(self.verlaeufe@).len()
                        && #[trigger] verlauf_paare(self.verlaeufe@)[i].0 == jid@ {
                        let i = choose|i: int| 0 <= i < verlauf_paare(self.verlaeufe@).len()
                            && #[trigger] verlauf_paare(self.verlaeufe@)[i].0 == jid@;
                        assert(self.verlaeufe@[i].jid@ != jid@);
                    }
                }
                let r: Vec<Nachricht> = Vec::new();
                assert(nachrichten_sicht(r@) =~= Seq::empty());
                r
            },
            Some(i) => {
                proof {
                    lemma_als_map_wert(verlauf_paare(self.verlaeufe@), i as int);
                }
                let quelle = &self.verlaeufe[i].nachrichten;
                let mut r: Vec<Nachricht> = Vec::new();
                let n = quelle.len();
                for j in 0..n
                    invariant
                        n == quelle@.len(),
                        nachrichten_sicht(r@) == nachrichten_sicht(quelle@).take(j as int),
                {
                    let m = quelle[j].kopie();
                    let ghost alt = r@;
                    assert(nachrichten_sicht(alt).len() == alt.len());
                    assert(alt.len() == j);
                    r.push(m);
                    assert(r@ == alt.push(m));
                    assert forall|x: int| 0 <= x < j + 1 implies #[trigger] nachrichten_sicht(r@)[x]
                        == nachrichten_sicht(quelle@).take(j + 1)[x] by {
                        if x < j {
                            assert(r@[x] == alt[x]);
                            assert(nachrichten_sicht(alt)[x] == nachrichten_sicht(quelle@).take(j as int)[x]);
                        }
                    }
                    assert(nachrichten_sicht(r@) =~= nachrichten_sicht(quelle@).take(j + 1));
                }
                assert(nachrichten_sicht(quelle@).take(n as int) =~= nachrichten_sicht(quelle@));
                r
            },
        }
    }

    /// Traegt eine Nachricht ein und schreibt den Chat fort.
    ///
    /// Der Chat der Unterhaltung wird angelegt, wenn es ihn noch nicht
    /// gibt; ein nicht leerer Name ersetzt den bisherigen; letzte Nachricht,
    /// Zeit und Absender werden nur fortgeschrieben, wenn die Nachricht nicht
    /// aelter ist als die bisher letzte. In den Verlauf kommt die Nachricht
    /// an ihren zeitlichen Platz, ausser ihre Kennung steht dort schon. Der
    /// Zaehler steigt um eins, wenn sich dabei irgendetwas aendert.
    pub fn eintragen(&mut self, n: Nachricht, chatname: &str)
        requires
            old(self).wohlgeformt(),
            eintragen_aendert(old(self)@, n@, chatname@) ==> old(self)@.folge < u64::MAX,
        ensures
            final(self).wohlgeformt(),
            final(self)@ == eintragen_spec(old(self)@, n@, chatname@),
    {
        let ghost s0 = self@;
        proof {
            gesetz_eintragen_wohlgeformt(s0, n@, chatname@);
        }
        let geaendert = chats_fortschreiben(&mut self.chats, &n, chatname);
        let aufgenommen = verlauf_fortschreiben(&mut self.verlaeufe, n);
        if aufgenommen || geaendert {
            self.folge = self.folge + 1;
        }
    }

    /// Benennt einen bekannten Chat um. Nur wenn sich der Name dabei
    /// aendert, zaehlt der Zaehler weiter; einen unbekannten Chat legt die
    /// Umbenennung nicht an.
    pub fn chatname_setzen(&mut self, jid: &str, name: &str)
        requires
            old(self).wohlgeformt(),
            old(self)@.chats.contains_key(jid@) && old(self)@.chats[jid@].name != name@
                ==> old(self)@.folge < u64::MAX,
        ensures
            final(self).wohlgeformt(),
            final(self)@ == chatname_spec(old(self)@, jid@, name@),
    {
        let ghost cp0 = chat_paare(self.chats@);
        let jid_s = jid.to_owned();
        match chat_index(&self.chats, &jid_s) {
            None => {
                proof {
                    lemma_als_map_enthaelt(cp0, jid@);
                    if exists|j: int| 0 <= j < cp0.len() && #[trigger] cp0[j].0 == jid@ {
                        let j = choose|j: int| 0 <= j < cp0.len() && #[trigger] cp0[j].0 == jid@;
                        assert(self.chats@[j].jid@ != jid@);
                    }
                }
            },
            Some(i) => {
                proof {
                    lemma_als_map_wert(cp0, i as int);
                }
                let name_s = name.to_owned();
                if !(self.chats[i].name == name_s) {
                    let mut c = self.chats[i].kopie();
                    c.name = name_s;
                    let ghost neu = c@;
                    self.chats.set(i, c);
                    proof {
                        lemma_als_map_aendern(cp0, i as int, neu);
                        assert(chat_paare(self.chats@) =~= cp0.update(i as int, (cp0[i as int].0, neu)));
                        let m = als_map(chat_paare(self.chats@));
                        assert forall|x: Seq<char>| #[trigger] m.contains_key(x) implies m[x].jid == x
                            && m[x].is_group == ist_gruppe_spec(x) by {
                            assert(als_map(cp0).contains_key(x));
                        }
                    }
                    self.folge = self.folge + 1;
                }
            },
        }
    }

    /// Die Chatliste, neueste zuerst.
    ///
    /// Jeder Chat kommt genau einmal vor, so wie er im Schnappschuss steht;
    /// die Liste ist nach der Zeit der letzten Nachricht absteigend geordnet.
    pub fn chats(&self) -> (r: Vec<Chat>)
        requires
            self.wohlgeformt(),
        ensures
            forall|i: int| 0 <= i < r@.len() ==> self@.chats.contains_key(#[trigger] r@[i].jid@)
                && self@.chats[r@[i].jid@] == r@[i]@,
            forall|k: Seq<char>| #[trigger] self@.chats.contains_key(k) ==> exists|i: int|
                0 <= i < r@.len() && #[trigger] r@[i].jid@ == k,
            forall|i: int, j: int| 0 <= i < j < r@.len() ==> #[trigger] r@[i].jid@ != #[trigger] r@[j].jid@,
            forall|i: int, j: int| 0 <= i < j < r@.len() ==> #[trigger] r@[i].last_time >= #[trigger] r@[j].last_time,
    {
        let ghost cp = chat_paare(self.chats@);
        let ghost m = als_map(cp);
        let mut r: Vec<Chat> = Vec::new();
        let mut herkunft: Ghost<Seq<int>> = Ghost(Seq::empty());
        let n = self.chats.len();
        for i in 0..n
            invariant
                n == self.chats@.len(),
                cp == chat_paare(self.chats@),
                m == als_map(cp),
                schluessel_eindeutig(cp),
                herkunft@.len() == r@.len(),
                forall|p: int| 0 <= p < r@.len() ==> 0 <= #[trigger] herkunft@[p] < i
                    && r@[p]@ == self.chats@[herkunft@[p]]@,
                forall|p: int, q: int| 0 <= p < q < r@.len() ==> #[trigger] herkunft@[p] != #[trigger] herkunft@[q],
                forall|j: int| 0 <= j < i ==> #[trigger] kommt_vor(herkunft@, j),
                forall|p: int, q: int| 0 <= p < q < r@.len() ==> #[trigger] r@[p].last_time >= #[trigger] r@[q].last_time,
        {
            let c = self.chats[i].kopie();
            let mut q: usize = 0;
            while q < r.len() && r[q].last_time >= c.last_time
                invariant
                    q <= r@.len(),
                    forall|p: int| 0 <= p < q ==> #[trigger] r@[p].last_time >= c.last_time,
                decreases r@.len() - q,
            {
                q = q + 1;
            }
            let ghost r0 = r@;
            let ghost h0 = herkunft@;
            r.insert(q, c);
            proof {
                herkunft@ = h0.insert(q as int, i as int);
                r0.insert_ensures(q as int, c);
                h0.insert_ensures(q as int, i as int);
                assert forall|p: int| 0 <= p < r@.len() implies 0 <= #[trigger] herkunft@[p] < i + 1
                    && r@[p]@ == self.chats@[herkunft@[p]]@ by {
                    if p > q {
                        assert(r@[p] == r0[p - 1]);
                        assert(herkunft@[p] == h0[p - 1]);
                    }
                }
                assert forall|p: int, q2: int| 0 <= p < q2 < r@.len() implies #[trigger] herkunft@[p]
                    != #[trigger] herkunft@[q2] by {
                    if p < q && q2 < q {
                    } else if p < q && q2 == q {
                    } else if p < q {
                        assert(herkunft@[q2] == h0[q2 - 1]);
                    } else if p == q {
                        assert(herkunft@[q2] == h0[q2 - 1]);
                    } else {
                        assert(herkunft@[p] == h0[p - 1]);
                        assert(herkunft@[q2] == h0[q2 - 1]);
                    }
                }
                assert forall|j: int| 0 <= j < i + 1 implies #[trigger] kommt_vor(herkunft@, j) by {
                    if j == i {
                        assert(herkunft@[q as int] == j);
                    } else {
                        assert(kommt_vor(h0, j));
                        let p0 = choose|p: int| 0 <= p < h0.len() && #[trigger] h0[p] == j;
                        if p0 < q {
                            assert(herkunft@[p0] == j);
                        } else {
                            assert(herkunft@[p0 + 1] == j);
                        }
                    }
                }
                assert forall|p: int, p2: int| 0 <= p < p2 < r@.len() implies #[trigger] r@[p].last_time
                    >= #[trigger] r@[p2].last_time by {
                    if p2 < q {
                    } else if p2 == q {
                    } else if p < q {
                        assert(r@[p2] == r0[p2 - 1]);
                        if q < r0.len() {
                            assert(r0[q as int].last_time < c.last_time);
                        }
                    } else if p == q {
                        assert(r@[p2] == r0[p2 - 1]);
                        assert(r0[q as int].last_time < c.last_time);
                        assert(r0[q as int].last_time >= r0[p2 - 1].last_time || p2 - 1 == q);
                    } else {
                        assert(r@[p] == r0[p - 1]);
                        assert(r@[p2] == r0[p2 - 1]);
                    }
                }
            }
        }
        proof {
            assert forall|x: int| 0 <= x < r@.len() implies m.contains_key(#[trigger] r@[x].jid@) && m[r@[x].jid@]
                == r@[x]@ by {
                let h = herkunft@[x];
                lemma_als_map_wert(cp, h);
                assert(cp[h] == (self.chats@[h].jid@, self.chats@[h]@));
            }
            assert forall|k: Seq<char>| #[trigger] m.contains_key(k) implies exists|x: int| 0 <= x < r@.len()
                && #[trigger] r@[x].jid@ == k by {
                lemma_als_map_enthaelt(cp, k);
                let j = choose|j: int| 0 <= j < cp.len() && #[trigger] cp[j].0 == k;
                assert(kommt_vor(herkunft@, j));
                let p = choose|p: int| 0 <= p < herkunft@.len() && #[trigger] herkunft@[p] == j;
                assert(r@[p].jid@ == k);
            }
            assert forall|x: int, y: int| 0 <= x < y < r@.len() implies #[trigger] r@[x].jid@ != #[trigger] r@[y].jid@ by {
                let hx = herkunft@[x];
                let hy = herkunft@[y];
                assert(cp[hx].0 != cp[hy].0);
            }
        }
        r
    }
}

fn chats_fortschreiben(chats: &mut Vec<Chat>, n: &Nachricht, chatname: &str) -> (geaendert: bool)
    requires
        schluessel_eindeutig(chat_paare(old(chats)@)),
        chats_wohlgeformt(als_map(chat_paare(old(chats)@))),
    ensures
        geaendert == (!als_map(chat_paare(old(chats)@)).contains_key(n@.chat_jid) || chat_fortgeschrieben(
            als_map(chat_paare(old(chats)@))[n@.chat_jid],
            n@,
            chatname@,
        ) != als_map(chat_paare(old(chats)@))[n@.chat_jid]),
        schluessel_eindeutig(chat_paare(final(chats)@)),
        als_map(chat_paare(final(chats)@)) == als_map(chat_paare(old(chats)@)).insert(
            n@.chat_jid,
            chat_fortgeschrieben(
                if als_map(chat_paare(old(chats)@)).contains_key(n@.chat_jid) {
                    als_map(chat_paare(old(chats)@))[n@.chat_jid]
                } else {
                    neuer_chat(n@.chat_jid, chatname@)
                },
                n@,
                chatname@,
            ),
        ),
{
    let ghost cp0 = chat_paare(chats@);
    let ghost m0 = als_map(cp0);
    let key = n.chat_jid.clone();
    let ghost k = key@;
    let ghost alt = if m0.contains_key(k) {
        m0[k]
    } else {
        neuer_chat(k, chatname@)
    };
    let idx = chat_index(chats, &key);
    let mut chat = match idx {
        Some(i) => {
            proof {
                lemma_als_map_wert(cp0, i as int);
            }
            chats[i].kopie()
        },
        None => {
            proof {
                lemma_als_map_enthaelt(cp0, k);
                if exists|j: int| 0 <= j < cp0.len() && #[trigger] cp0[j].0 == k {
                    let j = choose|j: int| 0 <= j < cp0.len() && #[trigger] cp0[j].0 == k;
                    assert(chats@[j].jid@ != k);
                }
            }
            Chat {
                jid: key.clone(),
                name: chatname.to_owned(),
                is_group: ist_gruppe(key.as_str()),
                last_message: String::new(),
                last_time: 0,
                from_me: false,
            }
        },
    };
    assert(chat@ == alt);
    let vorher = chat.kopie();
    if !chatname.is_empty() {
        chat.name = chatname.to_owned();
    }
    if n.timestamp >= chat.last_time {
        chat.last_time = n.timestamp;
        chat.last_message = n.text.clone();
        chat.from_me = n.from_me;
    }
    let ghost neu = chat@;
    assert(neu == chat_fortgeschrieben(alt, n@, chatname@));
    let geaendert = match idx {
        Some(_) => !gleicher_chat(&vorher, &chat),
        None => true,
    };
    match idx {
        Some(i) => {
            chats.set(i, chat);
            proof {
                lemma_als_map_aendern(cp0, i as int, neu);
                assert(chat_paare(chats@) =~= cp0.update(i as int, (cp0[i as int].0, neu)));
            }
        },
        None => {
            chats.push(chat);
            proof {
                assert forall|j: int| 0 <= j < cp0.len() implies #[trigger] cp0[j].0 != k by {
                    assert(cp0[j].0 == chats@[j].jid@);
                }
                lemma_als_map_anhaengen(cp0, k, neu);
                assert(chat_paare(chats@) =~= cp0.push((k, neu)));
            }
        },
    }
    geaendert
}

fn gleicher_chat(a: &Chat, b: &Chat) -> (r: bool)
    ensures
        r == (a@ == b@),
{
    a.jid == b.jid && a.name == b.name && a.is_group == b.is_group && a.last_message == b.last_message
        && a.last_time == b.last_time && a.from_me == b.from_me
}

fn verlauf_fortschreiben(verlaeufe: &mut Vec<Verlauf>, n: Nachricht) -> (aufgenommen: bool)
    requires
        schluessel_eindeutig(verlauf_paare(old(verlaeufe)@)),
        verlaeufe_wohlgeformt(als_map(verlauf_paare(old(verlaeufe)@))),
    ensures
        schluessel_eindeutig(verlauf_paare(final(verlaeufe)@)),
        ({
            let m0 = als_map(verlauf_paare(old(verlaeufe)@));
            let v0 = if m0.contains_key(n@.chat_jid) {
                m0[n@.chat_jid]
            } else {
                Seq::empty()
            };
            &&& aufgenommen == !hat_id(v0, n@.id)
            &&& als_map(verlauf_paare(final(verlaeufe)@)) == if aufgenommen {
                m0.insert(n@.chat_jid, einsortiert(v0, n@))
            } else {
                m0
            }
        }),
{
    let ghost vp0 = verlauf_paare(verlaeufe@);
    let ghost m0 = als_map(vp0);
    let key = n.chat_jid.clone();
    let ghost k = key@;
    let ghost nv = n@;
    let vidx = verlauf_index(verlaeufe, &key);
    match vidx {
        None => {
            proof {
                lemma_als_map_enthaelt(vp0, k);
                if exists|j: int| 0 <= j < vp0.len() && #[trigger] vp0[j].0 == k {
                    let j = choose|j: int| 0 <= j < vp0.len() && #[trigger] vp0[j].0 == k;
                    assert(verlaeufe@[j].jid@ != k);
                }
                assert(!hat_id(Seq::<NachrichtSicht>::empty(), nv.id));
                assert forall|j: int| 0 <= j < vp0.len() implies #[trigger] vp0[j].0 != k by {
                    assert(vp0[j].0 == verlaeufe@[j].jid@);
                }
            }
            let mut v: Vec<Nachricht> = Vec::new();
            v.push(n);
            proof {
                assert(nachrichten_sicht(v@) =~= seq![nv]);
                assert(einsortiert(Seq::empty(), nv) =~= seq![nv]);
                lemma_als_map_anhaengen(vp0, k, seq![nv]);
            }
            verlaeufe.push(Verlauf { jid: key, nachrichten: v });
            assert(verlauf_paare(verlaeufe@) =~= vp0.push((k, seq![nv])));
            true
        },
        Some(i) => {
            proof {
                lemma_als_map_wert(vp0, i as int);
            }
            if enthaelt_id(&verlaeufe[i].nachrichten, &n.id) {
                return false;
            }
            let p = einsortier_position(&verlaeufe[i].nachrichten, n.timestamp);
            let ghost altv = m0[k];
            let mut e = verlaeufe.remove(i);
            proof {
                lemma_einsortier_pos(altv, nv.timestamp);
                assert(vp0[i as int].1 == nachrichten_sicht(e.nachrichten@));
                nachrichten_sicht(e.nachrichten@).insert_ensures(p as int, nv);
            }
            e.nachrichten.insert(p, n);
            assert(nachrichten_sicht(e.nachrichten@) =~= einsortiert(altv, nv));
            let ghost ev = nachrichten_sicht(e.nachrichten@);
            verlaeufe.insert(i, e);
            proof {
                lemma_als_map_aendern(vp0, i as int, ev);
                assert(verlauf_paare(verlaeufe@) =~= vp0.update(i as int, (vp0[i as int].0, ev)));
            }
            true
        },
    }
}

/// `eintragen` haelt die Ordnung des Schnappschusses.
pub proof fn gesetz_eintragen_wohlgeformt(s: SchnappschussSicht, n: NachrichtSicht, chatname: Seq<char>)
    requires
        sicht_wohlgeformt(s),
    ensures
        sicht_wohlgeformt(eintragen_spec(s, n, chatname)),
{
    let k = n.chat_jid;
    let t = eintragen_spec(s, n, chatname);
    if wird_aufgenommen(s, n) {
        let v = verlauf_von(s, k);
        gesetz_einsortieren(v, n);
        lemma_einsortiert_stellen(v, n);
        lemma_einsortier_pos(v, n.timestamp);
        assert(gehoeren_zu(v, k));
        assert forall|j: int| 0 <= j < einsortiert(v, n).len() implies #[trigger] einsortiert(v, n)[j].chat_jid
            == k by {
            let p = einsortier_pos(v, n.timestamp);
            if j < p {
                assert(v[j].chat_jid == k);
            } else if j > p {
                assert(v[j - 1].chat_jid == k);
            }
        }
    }
    assert forall|x: Seq<char>| #[trigger] t.chats.contains_key(x) implies t.chats[x].jid == x
        && t.chats[x].is_group == ist_gruppe_spec(x) by {
        if x != k {
            assert(s.chats.contains_key(x));
        }
    }
}

/// Dieselbe Nachricht zweimal einzutragen ist dasselbe wie einmal: die
/// zweite wird als doppelt abgewiesen und laesst alles, wie es ist.
pub proof fn gesetz_eintragen_idempotent(s: SchnappschussSicht, n: NachrichtSicht, chatname: Seq<char>)
    requires
        sicht_wohlgeformt(s),
    ensures
        eintragen_spec(eintragen_spec(s, n, chatname), n, chatname) == eintragen_spec(s, n, chatname),
{
    let k = n.chat_jid;
    let t = eintragen_spec(s, n, chatname);
    let u = eintragen_spec(t, n, chatname);
    if wird_aufgenommen(s, n) {
        let v = einsortiert(verlauf_von(s, k), n);
        lemma_einsortier_pos(verlauf_von(s, k), n.timestamp);
        assert(v[einsortier_pos(verlauf_von(s, k), n.timestamp)] == n);
        assert(hat_id(verlauf_von(t, k), n.id));
    } else {
        assert(verlauf_von(t, k) == verlauf_von(s, k));
    }
    assert(!wird_aufgenommen(t, n));
    let c = t.chats[k];
    assert(chat_fortgeschrieben(c, n, chatname) == c);
    assert(u.chats =~= t.chats);
    assert(u.verlaeufe =~= t.verlaeufe);
}

/// Nach `eintragen` steht die Nachricht im Verlauf ihrer Unterhaltung:
/// wurde sie aufgenommen, genau sie, sonst eine mit derselben Kennung. Der
/// Chat der Unterhaltung existiert. Andere Unterhaltungen bleiben
/// unberuehrt; eine abgewiesene Nachricht laesst die Verlaeufe, wie sie
/// sind, eine aufgenommene hebt den Zaehler um eins; die Zeit der letzten
/// Nachricht eines Chats sinkt nie.
pub proof fn gesetz_eintragen_lesen(s: SchnappschussSicht, n: NachrichtSicht, chatname: Seq<char>)
    requires
        sicht_wohlgeformt(s),
    ensures
        ({
            let t = eintragen_spec(s, n, chatname);
            let k = n.chat_jid;
            &&& t.chats.contains_key(k)
            &&& hat_id(verlauf_von(t, k), n.id)
            &&& wird_aufgenommen(s, n) ==> verlauf_von(t, k).contains(n)
            &&& wird_aufgenommen(s, n) && s.folge < u64::MAX ==> t.folge == s.folge + 1
            &&& !wird_aufgenommen(s, n) ==> t.verlaeufe == s.verlaeufe
            &&& forall|x: Seq<char>| x != k ==> (#[trigger] t.chats.contains_key(x) == s.chats.contains_key(x))
                && (s.chats.contains_key(x) ==> t.chats[x] == s.chats[x])
            &&& forall|x: Seq<char>| x != k ==> (#[trigger] t.verlaeufe.contains_key(x) == s.verlaeufe.contains_key(x))
                && (s.verlaeufe.contains_key(x) ==> t.verlaeufe[x] == s.verlaeufe[x])
            &&& s.chats.contains_key(k) ==> t.chats[k].last_time >= s.chats[k].last_time
        }),
{
    let k = n.chat_jid;
    let t = eintragen_spec(s, n, chatname);
    if wird_aufgenommen(s, n) {
        let p = einsortier_pos(verlauf_von(s, k), n.timestamp);
        lemma_einsortier_pos(verlauf_von(s, k), n.timestamp);
        assert(verlauf_von(t, k)[p] == n);
        assert(hat_id(verlauf_von(t, k), n.id));
    }
}

/// Denselben Namen zweimal zu setzen ist dasselbe wie einmal.
pub proof fn gesetz_chatname_idempotent(s: SchnappschussSicht, jid: Seq<char>, name: Seq<char>)
    ensures
        chatname_spec(chatname_spec(s, jid, name), jid, name) == chatname_spec(s, jid, name),
{
}

/// Was jeder wohlgeformte Schnappschuss haelt, sichtbar gemacht: jeder
/// Chat steht unter seiner Kennung, jeder Verlauf ist nach Zeit geordnet,
/// fuehrt jede Kennung einmal und nur Nachrichten seiner Unterhaltung.
pub proof fn gesetz_wohlgeformt(s: &Schnappschuss)
    requires
        s.wohlgeformt(),
    ensures
        sicht_wohlgeformt(s@),
{
}

/// Der Verlauf jeder Unterhaltung eines wohlgeformten Schnappschusses ist
/// nach Zeit geordnet, fuehrt keine Kennung zweimal und haelt nur
/// Nachrichten dieser Unterhaltung.
pub proof fn gesetz_verlauf_geordnet(s: SchnappschussSicht, jid: Seq<char>)
    requires
        sicht_wohlgeformt(s),
    ensures
        zeitlich_geordnet(verlauf_von(s, jid)),
        ids_eindeutig(verlauf_von(s, jid)),
        gehoeren_zu(verlauf_von(s, jid), jid),
{
    if s.verlaeufe.contains_key(jid) {
        assert(verlaeufe_wohlgeformt(s.verlaeufe));
    }
}

/// Der Zaehler zaehlt jede Aenderung: nach `eintragen` ist er um eins
/// hoeher, wenn sich Chatliste oder Verlaeufe geaendert haben, und sonst
/// derselbe.
pub proof fn gesetz_eintragen_zaehlt(s: SchnappschussSicht, n: NachrichtSicht, chatname: Seq<char>)
    requires
        s.folge < u64::MAX,
    ensures
        ({
            let t = eintragen_spec(s, n, chatname);
            t.folge == if t.chats != s.chats || t.verlaeufe != s.verlaeufe {
                s.folge + 1
            } else {
                s.folge as int
            }
        }),
{
    let k = n.chat_jid;
    let t = eintragen_spec(s, n, chatname);
    if wird_aufgenommen(s, n) {
        let v = verlauf_von(s, k);
        lemma_einsortiert_stellen(v, n);
        assert(t.verlaeufe[k].len() == v.len() + 1);
        if s.verlaeufe.contains_key(k) {
            assert(t.verlaeufe[k] != s.verlaeufe[k]);
        } else {
            assert(t.verlaeufe.contains_key(k));
        }
        assert(t.verlaeufe != s.verlaeufe);
    } else if chat_aendert(s, n, chatname) {
        if s.chats.contains_key(k) {
            assert(t.chats[k] != s.chats[k]);
        } else {
            assert(t.chats.contains_key(k));
        }
        assert(t.chats != s.chats);
    } else {
        assert(t.chats =~= s.chats);
    }
}

/// Der Zaehler zaehlt jede Aenderung: nach `chatname_setzen` ist er um
/// eins hoeher, wenn sich die Chatliste geaendert hat, und sonst derselbe.
pub proof fn gesetz_chatname_zaehlt(s: SchnappschussSicht, jid: Seq<char>, name: Seq<char>)
    requires
        s.folge < u64::MAX,
    ensures
        ({
            let t = chatname_spec(s, jid, name);
            &&& t.verlaeufe == s.verlaeufe
            &&& t.folge == if t.chats != s.chats {
                s.folge + 1
            } else {
                s.folge as int
            }
        }),
{
    let t = chatname_spec(s, jid, name);
    if s.chats.contains_key(jid) && s.chats[jid].name != name {
        assert(t.chats[jid].name != s.chats[jid].name);
        assert(t.chats != s.chats);
    }
}

/// Was `eintragen` aus dem Chat der Unterhaltung macht: es gibt ihn danach;
/// ein neuer Chat traegt die Kennung und ist genau dann eine Gruppe, wenn
/// die Kennung mit `g:` beginnt; ein nicht leerer Name ersetzt den alten,
/// ein leerer laesst ihn stehen. Ist die Nachricht nicht aelter als die
/// bisher letzte (oder der Chat neu), so sind Zeit, Text und Absender des
/// Chats die der Nachricht; sonst bleiben sie, wie sie waren.
pub proof fn gesetz_eintragen_chat(s: SchnappschussSicht, n: NachrichtSicht, chatname: Seq<char>)
    ensures
        ({
            let t = eintragen_spec(s, n, chatname);
            let k = n.chat_jid;
            let c = t.chats[k];
            let bekannt = s.chats.contains_key(k);
            let neuer = !bekannt || n.timestamp >= s.chats[k].last_time;
            &&& t.chats.contains_key(k)
            &&& !bekannt ==> c.jid == k && c.is_group == (k.len() >= 2 && k[0] == 'g' && k[1] == ':')
            &&& bekannt ==> c.jid == s.chats[k].jid && c.is_group == s.chats[k].is_group
            &&& chatname.len() > 0 ==> c.name == chatname
            &&& chatname.len() == 0 && bekannt ==> c.name == s.chats[k].name
            &&& chatname.len() == 0 && !bekannt ==> c.name.len() == 0
            &&& neuer ==> c.last_time == n.timestamp && c.last_message == n.text && c.from_me == n.from_me
            &&& !neuer ==> c.last_time == s.chats[k].last_time && c.last_message == s.chats[k].last_message
                && c.from_me == s.chats[k].from_me
        }),
{
}

/// Was `chatname_setzen` aus einem bekannten Chat macht: nur der Name wird
/// der neue; Kennung, Gruppenzugehoerigkeit, letzte Nachricht, ihre Zeit
/// und ihr Absender bleiben. Andere Chats, die Verlaeufe und die Menge der
/// Chats bleiben, wie sie sind; ein unbekannter Chat aendert nichts.
pub proof fn gesetz_chatname_felder(s: SchnappschussSicht, jid: Seq<char>, name: Seq<char>)
    ensures
        ({
            let t = chatname_spec(s, jid, name);
            &&& t.verlaeufe == s.verlaeufe
            &&& t.chats.dom() == s.chats.dom()
            &&& !s.chats.contains_key(jid) ==> t == s
            &&& s.chats.contains_key(jid) ==> {
                let a = s.chats[jid];
                let c = t.chats[jid];
                &&& c.name == name
                &&& c.jid == a.jid
                &&& c.is_group == a.is_group
                &&& c.last_message == a.last_message
                &&& c.last_time == a.last_time
                &&& c.from_me == a.from_me
            }
            &&& forall|x: Seq<char>| x != jid && #[trigger] s.chats.contains_key(x) ==> t.chats[x] == s.chats[x]
        }),
{
    let t = chatname_spec(s, jid, name);
    if s.chats.contains_key(jid) && s.chats[jid].name != name {
        assert(t.chats.dom() =~= s.chats.dom());
    }
}

} // verus!
