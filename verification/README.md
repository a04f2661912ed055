# desk-monitoring

A transparent desktop HUD (GTK 4) that shows CPU, memory, disk, network,
mail, today's calendar and the weather.

- `src/` is the verified library: settings and the live settings slot,
  Unicode trimming and decimal text, byte formatting, the IMAP exchange and
  `STATUS` parsing, Maildir and disk/network arithmetic, today's calendar
  lines from iCalendar text, weather descriptions, chart histories, panel
  sizing and placement, and the integer parts of the animations.
- `app/` is the program: windows and cairo drawing, the settings file,
  network and file access, and the system readings.
- `tests/` exercises the library, including comparisons with the standard
  library's own parsing and float formatting.
