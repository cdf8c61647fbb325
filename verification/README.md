# urcu

Containers in the style of userspace RCU, written in Verus with their contracts
proved:

- `list::RcuList` — a doubly linked list; `iter_forward` walks from the back to the
  front, `iter_reverse` from the front to the back.
- `linked_list::RcuList` — a doubly linked list with a read side (`Reader`), a write
  side (`Writer`) and `Entry` handles that edit the list around one element; the
  writer walks entry positions in order with `entries_forward`/`entries_reverse`.
- `queue::RcuQueue` — first in, first out.
- `stack::RcuStack` — last in, first out, iterated from the top down.
- `hashmap::RcuHashMap` — a map from keys to values; `hash_map` gives access to it
  through an accessor handle. Lookups are stated for any key type whose `==` is an
  equivalence relation (`lawful_eq`): a key reaches the stored entry whose key equals
  it. For key types whose `==` is plain equality this is the plain `Map` behaviour.
- `boxed::RcuBox` — one value that is replaced as a whole.

Each container has a view (`Seq`, `Map` or the held value) and each operation's
`ensures` says what it does to that view. The laws that relate several operations
(for instance that `pop_back` undoes `push_back`, or that a value read after an
insert is the inserted value) are public proof functions next to the containers.

Layout:

- `src/` — the verified library.
- `tests/` — tests run against the compiled library.
- `app/` — thread-safe handles that put a container behind a mutex and report a
  poisoned lock as an error.
