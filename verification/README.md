# fluesterwind

Der Unterbau eines Signal-Dienstes fuer MeeGo Harmattan (Nokia N9/N950),
als Bibliothek mit bewiesenen Vertraegen.

- `src/` ist die Bibliothek: Kennungen von Unterhaltungen (`kennung`), der
  Schnappschuss aus Chatliste und Verlaeufen (`schnappschuss`), der Zustand
  des Verknuepfens (`zustand`), die Regeln fuer Anhaenge und Dateinamen
  (`medien`), die Entscheidungen der HTTP-Schnittstelle samt QR-Bild
  (`http`), die Orte der Daten (`dienst`) und Hilfen fuer Zeichenketten
  (`text`).
- `tests/` prueft die Bibliothek an festen Werten.
- `app/` ist das Programm drumherum: HTTP-Server, Signal-Anbindung ueber
  presage, Sitzungsbus, Dateisperre und Dateisystem.
