# kv_service

The request logic of a distributed key-value object service, written in Verus.

A cluster of nodes stores objects. Each object has an owner, the node that holds its metadata;
the hash of the object's key picks it. A small object lives in the cache and the storage of its
owner. A large one is cut into stripes that go round the data nodes, and the owner records where
each stripe is.

## Layout

`src/` is the verified library. It decides, computes and checks. It reads the clock for the
time of a write, and does no other I/O.

| module      | what it holds |
|-------------|---------------|
| `model`     | records, configuration, what the environment says of a node |
| `messages`  | the messages of the service |
| `status`    | errors |
| `payload`   | byte buffers |
| `text`      | decimal and hexadecimal numbers |
| `convert`   | between records and messages, descriptors and their check |
| `cluster`   | which node this is, which nodes hold an object |
| `placement` | the chunks of an object and the hash of their layout |
| `stream`    | objects and stripes as streams of pieces |
| `order`     | results of work on many nodes |
| `stripes`   | spread objects: cut, stored, recorded, read back |
| `spread`    | the course of a spread write, from the lock to the record |
| `removal`   | the course of the removal of a spread object |
| `batch`     | batches, shared out among the owners and answered in order |
| `reads`     | reads, lookups and removals |
| `writes`    | writes, one by one and as streams |
| `admin`     | health, statistics, device memory |
| `service`   | what the handlers share, and the locks of the writes |

`app/` runs the library: it reads the environment, calls the storage tiers and the other nodes,
and hands what comes back to the next function of the library.

## How a request runs

- A read: `require_key`, `route_to_owner`, then `object_source` on the object's record. Chunks
  are read by `read_chunk_from_placement`, `loaded_chunk` and `fetched_chunk`, joined by
  `collect_chunks`, and answered by `get_from_chunks` or `stream_object`. What is in memory is
  answered by `get_from_memory` or `stream_from_memory`.
- A read by descriptor: `require_described_key`, `route_to_owner`, then `descriptor_source`,
  which refuses a stale descriptor.
- A write: `require_key` (or `PutStreamReader` and `put_stream_key`), `route_to_owner`, then
  `plan_put` or `plan_put_stream`. `SpreadWrite::step` leads a spread write from the lock of
  `key_write_lock` to the record, with `put_chunk_on_node` for each stripe; `memory_write` says
  how any other write is done.
- A removal: as a read, up to `object_source`. `SpreadRemoval::step` leads the removal of a
  spread object from the stripes over the cache to the record.
- A batch: `plan_get_batch` or `plan_put_batch`, then `place` for this node and `accept_group`
  for each other one.
