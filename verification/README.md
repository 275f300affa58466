# busybeaver

A task execution library for Tokio. Its decisions are verified with Verus: which work is
admitted, what runs next, when it is tried again, who stops it, and what is reported in the
end. The runtime around them is ordinary Rust.

## Layout

- `src/` is the verified library. It spawns nothing and reads no clock: the time, the
  outcome of a wait and the result of work come in as arguments, and what to do next goes
  out as a value.
  - `beaver`, `supervisor`, `registry`, `observation`, `order`: the executor, its shutdown
    and its books.
  - `execution`, `execution_core`, `shutdown`: the life of one execution.
  - `lane`, `lane_machine`: bounded lanes with priorities, ordering keys and waiting
    producers.
  - `retry`, `recurring`: retried and recurring work.
  - `schedule`, `scheduler`, `dispatch`, `observe`: the scheduler, its jobs, keys, groups
    and runs, and queues in front of it. Under `scheduler`, `state` holds its tables and
    `keyed` what every operation on them keeps; `commands` is what is done to one run, and
    `replace` how a run takes the place of another.
  - `dam`, `task`, `fixed_count_task`, `periodic_task`, `range_interval_task`, `listener`:
    execution threads and their tasks.
  - `time`, `text`, `names`, `ids`, `permits`, `error`: what the others are made of.
- `app/` is the runtime: it spawns, sleeps, locks and logs, and asks the library what to do.
- `tests/` runs the library on concrete values.

## What is trusted

Identities come from the `uuid` crate (`ids`), and the bound on semaphores from `tokio`
(`permits`). Everything else in `src/` is proved.
