# anchorage

The rules of Anchorage, a GTK4/libadwaita client for the Linkding bookmark
manager, written in Verus with their behaviour stated and proved.

- `src/` is the verified library:
  - `text`: Unicode whitespace, trimming, prefix tests.
  - `numerals`: decimal numerals and `i32` parsing, with their round trip.
  - `urls`: the trusted calls into the `url` crate (parse, host, join).
  - `api`: bookmarks, pages, checks, drafts, the list query, error wording.
  - `models`: titles, snippets, host and date labels, favicon locations.
  - `tags`: reading the tags entry, appending a picked tag.
  - `forms`: the connect form, the add/edit sheet and what a URL check fills.
  - `config`: how stored credentials are read back.
  - `listing`: the paging states of the bookmark and tag lists.
  - `rows`: a row's meta line, badges and id.
- `app/` is the program around it: the GTK widgets, the network client over
  `linkding-rs`/`reqwest`, the keyring (`oo7`) and the async bridge (`tokio`).
- `tests/` runs the library on concrete values.
