# haven_desktop

The decision logic of the Haven desktop client (a Tauri shell around the
Haven web app), written in Verus and verified.

- `src/` is the library. Every function there has a contract; Verus proves
  all of them except the few trusted wrappers described below: locale negotiation and messages (`i18n`), server addresses and the
  saved server list (`state`, `history`), the running session and the
  navigation guard (`session`, `nav`, `nav_fail`), the local server's start-up
  decisions (`server`), certificate trust (`cert_trust`), shortcuts and the
  push-to-talk key hook (`shortcuts`, `ptt`), dialogs and images (`dialogs`),
  self-update (`update`), the tray (`tray`), notifications and badges
  (`notify`), preferences (`prefs`), launch and window events (`startup`),
  desktop integration (`desktop`), theme colours (`theme_icon`), screen-share
  picking (`share`) and audio records (`audio`). `text` and `weburl` hold the
  string and URL primitives the rest is stated over.
- Calls into other crates (`url`, `sha2`, `base64`, `serde_json`, `tiny-skia`)
  and into `str::to_lowercase` sit behind small trusted wrappers whose
  contracts name what the call returns.
- `tests/` runs the library on concrete values.
- `app/` is the Tauri program: windows, plugins, processes, files, the
  native audio library and the desktop bus. It hands the library plain values
  and acts on the decisions it returns.
