# builtins

The built-in functions of a JavaScript engine for web pages: `Array`, `String`, `Object`, `JSON`,
`Promise`, `Date`, `Math`, the methods of DOM nodes, canvases, storage, timers and sockets.

A built-in never touches the engine. Where it needs something that only the engine has (a property
that may run a getter, a call, a node of the document, floating point arithmetic), it stops with a
question (`host::Op`) and is run again from the start with one more reply. What a built-in does is
therefore a function of its arguments and of the replies, and the contracts say which one: a
`.._run` spec function gives the result, the exception or the next question, and the number of
replies that were used. State that the library keeps itself (`Storage`, `Timers`, `Listeners`) is
changed only by a run that ends without an exception.

- `src/host.rs`: questions, replies, and how runs are put together.
- `src/value.rs`, `src/number.rs`, `src/text.rs`: values, doubles by their bits, texts.
- `src/natives.rs`: all built-ins behind one function, `call_native`.
- the other modules: the built-ins by subject. Laws are the public proof functions `law_..`.
- `tests/`: the library run by a small engine.
- `app/`: the loop that answers questions, and the floating point behind some of the answers.
