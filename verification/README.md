# tux

A local assistant for Linux that is asked in plain sentences. A model answers,
or calls a tool; the agent runs the tool and hands the report back until there
is an answer. Files are edited and written, and packages installed, only after a
yes.

`src/` is the library: the agent loop, the tools' decisions, the facts about
the host, the backends' requests and replies, the daemon's protocol and the
setup of a machine, written and proved in Verus. Every contract speaks of text
as a sequence of characters. Each module ends, where there is one to state,
with the laws that hold across its functions, as public proof functions.

`app/` is the program around it: files, commands, sockets, HTTP, the terminal
and llama.cpp. It passes what it finds to the library as plain values and
carries out what the library decides. The local model is built with the `llama`
feature; `app/gui.rs` is the window, with GTK.

`tests/` runs the library, among others against the standard library where the
two must agree.

| module | what it holds |
| --- | --- |
| `agent` | tool calls in a reply, the prompt, turns and conversations |
| `backend`, `llama` | what a model is asked and how its answer is read |
| `tools` | the registry, and each built-in tool |
| `context`, `knowledge`, `models`, `config` | the host, its distribution, the models, the settings |
| `daemon`, `init`, `cli`, `gui`, `spinner` | what the programs decide and say |
| `json`, `text`, `search`, `lines`, `decimal`, `paths` | the vocabulary they share |
