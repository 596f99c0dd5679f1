# DictFlow

Offline voice dictation: hold a key, speak, release, and the text lands in the
app that has the focus.

`src/` is the library, written in Verus. It holds the rules of the app, each
with a contract that is proved:

- `text`, `format`, `pattern`, `words`, `chars`: the text passes. Spoken commands,
  backtracking, lists, the dictionary, filler words, punctuation.
- `hotkey`, `shortcuts`: talk keys and utility shortcuts, and what their edges do
  to a take.
- `vad`, `single`, `devices`, `session`, `dictation`, `engine`: a take from the
  microphone to the finished text.
- `polish`, `prompts`, `json`: requests to language models and audio hosts, and
  their replies.
- `models`, `download`: the model catalog and its downloads.
- `settings`, `state`, `stats`, `calendar`, `commands`: settings, history, the usage
  ledger with its days, and the commands of the user interface.
- `overlay`, `focus`, `tray`, `onboarding`, `perm`, `sys`, `audio`: the shell around a
  take.

Samples, temperatures and JSON numbers are held by the bit patterns of their
floating-point values; durations are in milliseconds or nanoseconds. The system
that the app runs on is a parameter.

`app/` is the Tauri shell: windows, microphone, speech engines, files, network.
`tests/` run the library on concrete values.
