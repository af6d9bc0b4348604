# pocket_feeder

Follows RSS feeds, leaves out the items that a feed's exclusion rules name
(by author or by category), stamps each kept item with the moment of its
publication date, saves the items that are not yet in the user's Pocket list
to Pocket, and writes all kept items, ordered by time, to `output.yml`.

- `src/` is the verified library: the exclusion rules (`source`), feed
  filtering and time ordering (`feed`), items and their timestamps (`item`,
  `datetime`), the Pocket requests and the steps of obtaining an access token
  (`pocket_api`, `pocket_auth`), the saved-list answer (`pocket_item`,
  `pocket_item_response`), which kept items to save to Pocket (`sync`), the
  settings (`config`) and text helpers (`text`).
- `app/` is the program: it reads the settings, fetches feeds, talks to Pocket
  over HTTP, opens the browser for authorization and writes the output file.
- `tests/` runs the library on concrete values.
