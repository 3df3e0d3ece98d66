# hfs

A command-line tool for HDFS that needs no JVM, and the verified library
behind it. The library (`src/`) is written in Verus: each function states in
its contract what it returns, and Verus proves it from the contracts of the
functions it calls. The calls into outside crates (quick-xml, parquet) and
into std go through small wrappers whose contracts are believed, not proved;
each says in its doc comment what it claims of the call. The Parquet footer
decoder is only handed bytes that a verified check (`footer_check`) accepts,
which refuses the footers on which the `parquet` crate would panic.

## Layout

- `src/` — the library, verified by Verus.
  - `config` — the configuration (`HdfsConfig`), where each source (Hadoop XML
    files, a profile `.env` file, the environment, the command line) sets the
    NameNode, the user and the backend; `hadoop_xml` reads the XML files with
    quick-xml; `props` is the string map they fill.
  - `builder` — the choice of backend (RPC, WebHDFS, or automatic with an RPC
    probe).
  - `webhdfs` — WebHDFS URLs, the conversion of its responses and the mapping
    of its errors; `rpc` and `error` do the same for the native RPC client.
  - `client` — the records every backend returns.
  - `schema` — a schema shared by Parquet, Avro, ORC and Hive, and the
    comparison of two schemas.
  - `parquet`, `parquet_tree`, `parquet_stats`, `parquet_footer`,
    `footer_check` — the Parquet footer: locating it at the end of a file,
    checking its Thrift metadata, decoding it with the `parquet` crate, its
    schema as a tree of fields, and column statistics over the row groups.
  - `avro`, `orc`, `hive`, `format` — the other formats and format detection.
  - `cli` — the decisions of the command-line output that do not touch the
    terminal.
  - `laws` — properties across operations, proved.
  - `text` — character-level string operations, specified over `Seq<char>`.
- `app/` — the executable: argument parsing, file and network I/O (ureq,
  hdfs-native, tokio), JSON output and the terminal tables.
- `tests/` — tests of the library.
