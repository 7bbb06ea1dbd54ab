# zst_webapp_scrapper

The logic of a small web service that reads a school's web site: the list of
timetables (classes and teachers), the timetable of a class or a teacher laid
out by hour or by weekday, a room's timetable gathered from all class
timetables, and the announcements and news of the home page.

- `src/` is the library. Each function states in its contract what it computes,
  over views of the entities (`entities/`) and spec functions; the HTML itself
  is parsed by the `scraper` crate, whose results the contracts name
  (`utils/scraping.rs`).
- The page readers (`plan`, `get_id`, `home`, `plans` and the like) return
  `None` where a page cannot be read to the end: a list entry without a link,
  a timetable row without an hour cell, an announcement without a date. Their
  contracts say exactly which pages those are. The service treats `None` as
  fatal and panics, so such a page gets no answer.
- `src/utils/text.rs` holds the string operations the readers need (replace,
  split, trim, byte slicing, decimal rendering), each proved against a spec.
- `app/` is the actix-web service around it: it fetches the pages, keeps the
  room timetables in SQLite and in memory, and sends the library's results as
  JSON.
- `tests/` runs the library on concrete pages.
