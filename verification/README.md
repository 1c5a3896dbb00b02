# node_evaluate

Evaluates JavaScript modules in a pool of Node.js processes.

`src/` holds the decisions of an evaluation, verified with Verus. It does no I/O:
each conversation is a chain of states that take the answers they wait for.

- `pool`, `inner_assets`, `text`: setting up the pool of processes.
- `retry`: repeating failed attempts to hand a job to a worker.
- `message`, `pull`: taking in the messages of a worker until there is a result.
- `dir_dependency`: depending on all that a directory holds.
- `evaluate`, `bytes`, `stream`: from the request for an evaluation to what the
  caller gets.
- `issue`, `path`: what is reported along the way.

`app/` runs these chains on an asynchronous runtime. The build engine that does
the actual work stands behind the trait `Host`.
