# lvm2

The verified core of a Rust binding to the LVM2 application library
(`liblvm2app`).

- `src/` is the library, verified with Verus:
  - `mapper.rs`: the walk over the C library's intrusive circular lists and
    the address arithmetic from list links to their element, with the law
    that a walk over a ring visits its nodes once each, in order.
  - `cstring.rs`: Rust strings to NUL-terminated C strings and back.
  - `context.rs`: access modes, the C library's errors and their text, and
    the reasons a listing stops.
  - `vg.rs`, `lv.rs`: the listing of volume groups and of logical volumes
    as machines that take the C library's answers and give the next request,
    with laws on what a listing yields for a given state of the C library.
- `app/` holds the C declarations and the code that calls the C library and
  answers the machines' requests.
- `tests/` drive the machines against a simulated C library.
