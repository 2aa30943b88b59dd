# outlook_pst

Reading and writing the structures of Outlook personal folders (PST) files, in
both the Unicode and the ANSI format, with the parsers and writers of the structures
here proved against a byte-level model of their layout. Data blocks are read and
written without the Permute and Cyclic encodings.

## Layout

- `src/codec.rs`: little-endian (and big-endian) integers and lists of them,
  with their encodings as sequences of bytes.
- `src/crc.rs`: the CRC and the signature that protect pages, blocks and the header.
- `src/ndb/`: the node database layer: node and block ids, byte indexes, block
  references, the root and the header, page trailers, map pages, density lists,
  blocks and the pages and entries of the node and block B-trees, with the lookup
  of a key within one page.
- `src/amap.rs`: the allocation maps: the pages that a rebuild starts from, the
  free space they describe and the free map pages computed from them.
- `src/rebuild.rs`: the steps of an allocation map rebuild: marking each B-tree page
  and each block in use, and the pages to visit next.
- `src/ltp/`: heap ids, property types and values, property records, the header and
  entries of heap trees (and the reading of their levels from the heap items that
  hold them) and the table context (columns, rows and row matrices); `read_write.rs`
  holds the traits by which they are read from and written to bytes.
- `src/messaging/`: search updates and their queues, the properties of folders,
  messages and attachments, and the checks made when those objects are opened.
- `src/compressed_rtf/`: the dictionary of compressed RTF streams, with the search
  for the longest match of the input.
- `app/`: files on disk: opening a file, and rebuilding its allocation maps by
  walking its B-trees.

Most structures come with a proof that reading the bytes their writer produces
gives them back (the `lemma_*_roundtrip` proof functions). The exceptions are values
that the layout cannot tell apart: a node entry whose parent or sub-node is node 0
reads back as having none, and so does a table context whose row matrix is node 0.
