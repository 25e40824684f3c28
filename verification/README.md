# wordcount

A small web application for counting the words one knows in Spanish and
English. Users register, sign in, and type words; each word is placed in the
Spanish or the English bank according to the language detected, and a
definition is fetched from Wiktionary (Spanish, with an English translation
of it) or from dictionaryapi.dev (English).

Layout:

- `src/` is the library, verified with Verus:
  - `text.rs`: trimming, tag stripping, entity decoding, substring
    replacement and decimal rendering over character sequences;
  - `json.rs`: the JSON model that replies are read into;
  - `definitions.rs`: choosing a definition from a dictionary reply;
  - `translate.rs`: the translation request address and reading its reply;
  - `words.rs`: normalising a typed word and choosing its bank and message;
  - `auth.rs`: password hashing, sign-in and session tokens;
  - `pages.rs`: the pages the server answers with.
- `app/main.rs` is the server: routes, cookies, the SQLite store and the
  HTTP requests to the dictionaries and the translation service.
- `tests/` holds the library's tests.
