//! Was die Oberflaeche ueber `/status` erfaehrt.

use vstd::prelude::*;

verus! {

/// Der Zustand des Dienstes, wie die Oberflaeche ihn sieht.
#[derive(Clone)]
pub struct Lage {
    /// Verknuepft, also ein Zweitgeraet dieses Kontos.
    pub paired: bool,
    /// Verbindung zum Server steht.
    pub connected: bool,
    /// Die Adresse zum Abscannen, solange das Verknuepfen laeuft.
    pub pair_url: String,
    /// Eigene Nummer, wenn bekannt.
    pub phone: String,
    pub last_error: String,
    pub state: String,
}

/// Die Lage als mathematischer Wert.
pub struct LageSicht {
    pub paired: bool,
    pub connected: bool,
    pub pair_url: Seq<char>,
    pub phone: Seq<char>,
    pub last_error: Seq<char>,
    pub state: Seq<char>,
}

impl View for Lage {
    type V = LageSicht;

    open spec fn view(&self) -> LageSicht {
        LageSicht {
            paired: self.paired,
            connected: self.connected,
            pair_url: self.pair_url@,
            phone: self.phone@,
            last_error: self.last_error@,
            state: self.state@,
        }
    }
}

impl Lage {
    /// Der Anfangszustand: nicht verknuepft, nicht verbunden, `idle`.
    pub fn neu() -> (r: Self)
        ensures
            r@ == (LageSicht {
                paired: false,
                connected: false,
                pair_url: Seq::empty(),
                phone: Seq::empty(),
                last_error: Seq::empty(),
                state: "idle"@,
            }),
    {
        Lage {
            paired: false,
            connected: false,
            pair_url: String::new(),
            phone: String::new(),
            last_error: String::new(),
            state: String::from_str("idle"),
        }
    }

    /// Die Adresse zum Abscannen ist da: sie wird abgelegt, der Zustand ist
    /// `pairing`, ein frueherer Fehler gilt nicht mehr.
    pub fn adresse_setzen(&mut self, adresse: String)
        ensures
            final(self)@ == (LageSicht {
                pair_url: adresse@,
                state: "pairing"@,
                last_error: Seq::empty(),
                ..old(self)@
            }),
    {
        self.pair_url = adresse;
        self.state = String::from_str("pairing");
        self.last_error = String::new();
    }

    /// Das Verknuepfen ist durch. Die Adresse taugt nichts mehr und wird
    /// geleert; die eigene Nummer wird uebernommen, sofern der Server sie
    /// schon nennt.
    pub fn verknuepft(&mut self, nummer: Option<String>)
        ensures
            final(self)@ == (LageSicht {
                paired: true,
                state: "connected"@,
                pair_url: Seq::empty(),
                last_error: Seq::empty(),
                phone: match nummer {
                    Some(n) => n@,
                    None => old(self)@.phone,
                },
                ..old(self)@
            }),
    {
        self.paired = true;
        self.state = String::from_str("connected");
        self.pair_url = String::new();
        self.last_error = String::new();
        if let Some(n) = nummer {
            self.phone = n;
        }
    }

    /// Die Verbindung zum Server steht oder steht nicht; steht sie, ist der
    /// Zustand `connected`.
    pub fn verbunden_setzen(&mut self, an: bool)
        ensures
            final(self)@ == (LageSicht {
                connected: an,
                state: if an { "connected"@ } else { old(self)@.state },
                ..old(self)@
            }),
    {
        self.connected = an;
        if an {
            self.state = String::from_str("connected");
        }
    }

    /// Ein Fehler: sein Text wird abgelegt, der Zustand ist `error`.
    pub fn fehler_setzen(&mut self, text: String)
        ensures
            final(self)@ == (LageSicht {
                last_error: text@,
                state: "error"@,
                ..old(self)@
            }),
    {
        self.last_error = text;
        self.state = String::from_str("error");
    }

    /// Ein angemeldetes Konto wird in die Lage uebernommen: verknuepft und
    /// verbunden.
    pub fn uebernehmen(&mut self, nummer: Option<String>)
        ensures
            final(self)@ == (LageSicht {
                paired: true,
                connected: true,
                state: "connected"@,
                pair_url: Seq::empty(),
                last_error: Seq::empty(),
                phone: match nummer {
                    Some(n) => n@,
                    None => old(self)@.phone,
                },
            }),
    {
        self.verknuepft(nummer);
        self.verbunden_setzen(true);
    }
}

} // verus!
