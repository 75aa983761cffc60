# rhesis

The logic of a Qt text editor that checks grammar with a LanguageTool server,
written in Verus and proved against its contracts.

- `src/` is the verified library:
  - `text`: Unicode white space, blank texts, decimal text of integers, joining with `;`.
  - `bridge`: a highlighter that underlines the words that begin with `a`.
  - `interop::bridge`: recommendations, the highlighter that underlines them, offers them
    for a selection and locates them; the text helper that passes changes on.
  - `interop::debounce`: the checking worker as a state machine (wait, settle, check, send).
  - `interop::async_messaging_helper`: starting and restarting the worker and the server.
  - `languatool`: the check request and how a reply becomes recommendations.
  - `ui::bridge`: the highlighter whose recommendations run from start to end.
  - `startup`: namespace, root QML address, icon, style, server port.
- `app/` is the Qt program around it: the Qt objects, HTTP, processes and the async runtime.
- `tests/` runs the library on concrete values.
