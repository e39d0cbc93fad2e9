# nexcore-notebooklm

NotebookLM integration: a library of notebooks, chat sessions with them, and
the browser-driven flow that asks a notebook a question and reads the answer.

`src/` is the verified library (Verus). It holds the notebook library (add,
get, select, update, remove, search, statistics), the session store, the data
directory layout, the browser lifecycle state, the authentication validity
window, text normalisation, the response polling state machine, the page
scripts, the stealth arguments and script, and the timing constants. Each
public function carries a contract; the laws that relate several operations
are proof functions named `law_*` next to the functions they speak of.

`app/` is the unverified shell around it: JSON files on disk (serde), the
Chrome process and page (chromiumoxide, tokio), and the asynchronous query
flow that drives the library's state machines.

`tests/` exercises the library on concrete values.
