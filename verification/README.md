# price_loom

A service that serves the daily bhavcopies (end-of-day price files) of the National Stock
Exchange of India: it looks a day's file up in an object store, downloads it from the exchange
when it is missing, stores it, records its prices in PostgreSQL and answers with its records.

- `src/` is the library, verified with Verus: calendar dates and their formats, the URLs of the
  exchange's archive, the reading of a downloaded file (zip or plain), the checks that turn a row
  into a record, the ordered set of records of a file, storage keys, and the rows written to the
  database.
- `app/` is the service around it: the HTTP server, the object store, the database, the HTTP
  client, and the CSV reading with serde.
- `tests/` exercises the library.

Prices are held in the library as the bit patterns of IEEE-754 binary64 values; the service
turns them into and out of `f64`. A record never holds a NaN price, and a bhavcopy holds its
records in strictly increasing order, so without duplicates; both are type invariants. Of two
equal records in a file, the later one is kept.
