# screen_capture_diagnostic

The verified core of a desktop assistant for a game: it diagnoses screen
capture, checks calibration profiles, places an overlay window and its test
cards, reads the game's local Live Client Data API, and looks up what the
ApexLOL site says about a champion with an augment. Offline tools recognise the
title text of calibrated crops.

- `src/` is the library, verified with Verus. Each module states its behaviour
  in contracts over `Seq`/`Map` models:
  - `text`, `html`: the character-level model of strings, and reading text,
    attributes, meta tags and links out of HTML.
  - `json`: the entries of a JSON object as plain values (text, unsigned
    integer, other), for the overlay settings and the game's answers.
  - `apexlol`: names, ratings, tips and dates of ApexLOL pages; reading a
    champion or augment page into a result.
  - `lookup`: the lookup's steps (request checking, search URL, one locale's
    pages, the choice between locales); `cache`: the result cache.
  - `overlay`, `capture`, `calibration`: where the overlay and its cards go,
    monitor choice and capture bookkeeping, profile validation.
  - `live_client`: the one address the game's API is read from, and the
    messages for failed requests.
  - `ocr`: the character table and greedy CTC decoding of the recogniser,
    scoring and replay order of the offline tools.
- `tests/` runs the library on concrete inputs.
- `app/` is the desktop program around it: the window commands, HTTP, files,
  screen capture, image and floating-point work, and the offline OCR tools.
