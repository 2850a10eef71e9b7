# fuo

A scraper for the FuOverflow community forum, whose logic is verified with
Verus.

- `src/` is the verified library: text handling (`text`), the page readers
  (`forum`, `thread`, over the HTML queries of `scrape`), the client's decisions
  (`client`: login flow, redirect policy, cookies, paths, paging), the login form
  (`login`), what the command-line tool prints and writes (`cli`, `install`), and
  properties of the whole (`laws`).
- `app/` is the `openfpt` command-line tool: HTTP requests, files, the
  credential manager and argument parsing, driven by the library's decisions.
- `tests/` exercises the library on concrete pages and values.
