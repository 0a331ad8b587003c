# oxideav_mkv

Reading and writing Matroska and WebM documents, verified with Verus.

- `src/ebml.rs`, `src/write.rs`: the elements that a document is made of.
- `src/demux.rs` and `src/demux/`: from bytes to streams, packets, tags, chapters,
  attachments and the seek index. `MkvDemuxer` is the entry point.
- `src/mux.rs` and `src/mux/`: from streams, chapters and packets to bytes. `MkvMuxer`
  gives the bytes to be written; it does no output of its own.
- `src/round_trip.rs` and `src/round_trip/`: what is written is read back: the streams, the
  chapters, every packet with its stream, its data, its keyframe flag and its time in
  milliseconds, and every entry of the index.
- `src/schema.rs`: the table of the elements that Matroska knows.
- `app/`: the reader and the writer on the inputs, outputs and traits of `oxideav_core`.
  Floating point lives here; the library keeps floats as their bits. A document is held in
  memory as a whole, attachments included.
- `tests/`: examples of all of this.

Every function of the library has a contract over a mathematical model of the document.
Few of them have a precondition, and those that do ask for what the constructors of their
types give. What is taken on trust are four wrappers: `string_from_utf8_lossy`,
`string_from_utf8`, `to_ascii_lowercase` and `bytes_per_sample`.
