# ergvein_rusty

An indexing node for the ergvein mobile wallet: it follows the Bitcoin chain,
builds a BIP158 compact filter for every block, stores the filters, and serves
them to wallets over the ergvein protocol.

- `src/` is the verified library (Verus): the storage layout of filters and of
  the filters height (`height`, `store`), the coin records kept while filters
  are built and their consensus encoding (`coin`), the spent outputs a block's
  filter needs (`inputs`), message framing (`codec`), the protocol model and
  the decisions of a client connection (`protocol`, `logic`), the sync's
  restart and polling decisions (`sync`), the block explorer addresses and the
  lag check (`explorer`), and the fees cache (`fee`).
- `app/` is the program around it: argument handling, the database, the
  network, the node connection, metrics, and the periodic fee and rate
  requests.
- `tests/` exercises the library on concrete values.
