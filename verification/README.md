# chat_history_manager

A verified library for managing chat histories: the entity model of chats, users and
messages, their practical comparison, the merge analysis of two snapshots of one chat, and
the parsers and helpers around them. Every function of `src/` carries a contract that Verus
proves.

## Layout

- `src/model.rs`, `src/ids.rs` — the entities and their identifiers.
- `src/text.rs`, `src/numbers.rs`, `src/rich_text.rs`, `src/searchable.rs` — names, decimal
  text, rich text elements and searchable strings.
- `src/files.rs`, `src/facts.rs` — paths under a dataset root, and what is known of the
  files (size and hash) and numbers an entity refers to.
- `src/entity_utils.rs`, `src/message_utils.rs`, `src/master_slave.rs` — helpers on users,
  chats and messages.
- `src/equality.rs` — practical equality of messages (ignoring IDs, comparing files by
  content).
- `src/comparison.rs`, `src/cmp_result.rs` — practical comparison, telling which of two
  versions of an entity has more data.
- `src/merge.rs`, `src/analyzer.rs` — the merge analysis of a master and a slave chat.
- `src/dao.rs`, `src/stream.rs` — the interface of a chat history store (with the model of
  its messages that its answers are held to), and the stream that
  decides how a chat's messages are read from it in batches (its caller does the fetching).
- `src/blob.rs` — the photos blob of Tinder Android databases.
- `src/tg_keeper.rs`, `src/tg_service.rs`, `src/utf16.rs` — assembling chats from tg-keeper
  events, service messages, and message text with formatting entities whose offsets count
  UTF-16 code units.
- `src/tg_media.rs`, `src/tg_message.rs` — what a tg-keeper message and its attached media
  become.
- `src/whitespace.rs`, `src/rich_text_norm.rs` — Unicode whitespace trimming, and the
  normalization of loaded rich text.
- `src/loaders.rs` — what the loaders share: file checks, asking the user, phone numbers.
- `src/whatsapp.rs`, `src/whatsapp_system.rs`, `src/whatsapp_chat.rs` — regular and system
  messages of WhatsApp Android databases, from the columns read for them, the assembly
  of a chat from its rows, row by row (the caller reads the rows), and which chats are
  loaded (never the official account's, only those with a regular message).
- `src/tinder.rs` — messages and chats of Tinder Android databases; a GIF sent as a Tenor
  link becomes a sticker, whose file the caller downloads to `Media/_downloaded`.
- `src/instagram.rs` — messages of Instagram exports, from the fields of a message, with
  their garbled text encoding fixed.
- `src/signal.rs` — messages and chat of a private Signal conversation, from its rows.
- `src/telegram.rs` — the top level of a Telegram export (`result.json`): the personal
  information that describes myself, and the contact and chat entries to read further.
- `src/raw_mapping.rs` — how lists, flags, rich text elements, contents, service values and
  whole messages are stored in database rows and read back, with the files to copy along.
- `src/sql.rs`, `src/smart_slice.rs`, `src/utils.rs` — SQL joins, slicing from either end,
  and small helpers.
- `src/ext.rs` (and the UTF-16 calls at the end of `src/utf16.rs`) — the calls into outside
  crates and std, with the contracts they are trusted
  to meet.
- `app/main.rs` — a command line front end doing the file system work; `app/history.rs`
  runs the batched reading of a store; `app/telegram_export.rs` reads an export file into
  the library's JSON value.

Laws that span several functions are public proof functions named `law_*`.
