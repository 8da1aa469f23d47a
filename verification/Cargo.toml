[package]
name = "spider_py"
version = "0.0.1"
edition = "2021"
publish = false

[dependencies]
compact_str = "=0.7.1"
indexmap = "=2.14.2"
pyo3 = "=0.20.3"
pyo3-asyncio = { version = "=0.20.0", features = ["tokio-runtime"] }
spider = { version = "=1.90.1", features = ["budget", "control", "cron", "regex"] }

[dev-dependencies]
# The keys of a budget in tests; also the last release whose texts are those of compact_str 0.7,
# which spider builds with.
case_insensitive_string = "=0.2.2"
