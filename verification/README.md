# nova_vm

Parts of an ECMAScript engine, written in Rust and verified with Verus: objects
that carry native data of an embedder, weak references to them, regular
expressions, and single-worker access to linear memory.

- `src/` is the verified library.
  - `values.rs`, `heap.rs`, `strings.rs`, `utf16.rs`, `wtf8_buf.rs`: language
    values, the heap that they point into, and strings as sequences of UTF-16
    code units.
  - `embedder_object.rs`, `weak_ref.rs`, `gc.rs`, `collection.rs`: embedder
    objects, `WeakRef`s, how heap data takes part in garbage collection, and what
    survives it.
  - `regexp/`: flags, the "lastIndex" storage, compiling, initializing and
    executing regular expressions.
  - `atomics.rs`, `memcpy.rs`: reads, writes and copies in linear memory.
- `tests/` runs the library together with the crates that it calls.
- `app/` drives the operations that can run code of the program.

Getting a property, calling a function and converting a value to a string or to
a length can run arbitrary code. An operation that needs one of these stops with
a step that says what is needed, and goes on when it is handed the completion.

Regular expressions are run by `regress`. Its optimizer makes loops that go wrong
where a search in Unicode mode gets inside of a surrogate pair. Such a search is
run with the pattern compiled without the optimizer.
