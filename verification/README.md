# spider_py

Websites to crawl from Python, on top of the `spider` crawler.

The library under `src/` is verified with Verus. It decides and computes: which tasks a
crawl, a scrape, a cron job or a subscription takes and under which ids they stand, which of
them are given up when they are stopped, what the settings of the crawler become, and what of
a crawl is shown. It hands out what is left to do as plain values.

- `website`: a website, all operations on it, and what they leave to do.
- `cron`: a cron job that was started.
- `registry`: the tasks of one kind, each under its id, in an `indexmap::IndexMap`.
- `crawler`: what a `spider::website::Website` holds, and the calls into it.
- `headers`: HTTP headers, in a `HeaderMap`.
- `page`: the pages that listeners see.
- `laws`: what holds of websites whatever is done with them.

`app/` is the Python module. It spawns, aborts and awaits the tasks, runs the crawls and calls
the Python callbacks. A task stands in the library as a number; `app/tasks.rs` keeps the handle
behind it.

Crawling with a browser takes the `chrome` feature of `spider`.
