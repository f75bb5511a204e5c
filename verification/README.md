# qwen_imager

The core of a desktop image-generation client for DashScope (Qwen) and other
configured image APIs, written in Verus: every function under `src/` carries
a contract that Verus proves.

- `src/services/config_loader.rs` checks `~/.qwenimage/setting.json` once it
  has been read: every provider and model definition, with the first problem
  reported.
- `src/services/template_engine.rs` renders request templates with
  `{placeholder}` variables and extracts values from responses along
  dot-notation paths with `[*]` wildcards.
- `src/commands/` builds the request bodies of text-to-image, image editing
  and translation, picks the calling mode, and reads the images out of the
  responses.
- `src/services/qwen_client.rs` decides retries on rate limiting and the
  course of task polling; `src/services/db.rs` and `src/services/image_utils.rs`
  hold the rules of conversation titles, paths, MIME types and data URIs.
- The public `law_*` proof functions state properties that span functions,
  such as path composition and the behaviour of URL-only model definitions.

`app/` is the unverified shell: file, network and database I/O, the serde
forms of the library's types, and the commands that the frontend invokes.
