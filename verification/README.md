# mafold-cli

Mafold from your terminal: a small client of the Mafold API and an agent daemon
that has a local coding assistant reply as your bot. The decisions that the
program makes stand in a library that is verified with
[Verus](https://github.com/verus-lang/verus).

```
mafold agent --token mb_xxxx --workdir ~/your-repo   # have the assistant reply as your bot
mafold --token mb_xxxx chats                         # list your conversations
mafold --token mb_xxxx send @alice "hi there"        # send a message
mafold update                                        # install the latest release
```

The token is that of a bot (`mb_…`; create one in the Mafold app), given by
`--token` or `$MAFOLD_BOT_TOKEN`. The server is `https://api.mafold.com` unless
`--base` or `$MAFOLD_BASE` names another.

## `agent`

Runs the assistant in `--workdir` (or `$MAFOLD_WORKDIR`) for each message to your
bot and streams the reply back. It always finalizes: a failure surfaces as a
message, never as a stuck "typing…". The bot shows as online only while the agent
is running, which pings the server every 25 seconds.

The assistant is any command-line tool that takes a prompt with `-p` and prints
its reply as a stream of JSON records. Which one it is stands in `assistant.json`
(or the file that `--assistant` or `$MAFOLD_ASSISTANT` names):

```json
{
  "command": "scribe",
  "product": "Scribe"
}
```

`command` starts it, and `product` is what it is called when it is not found. The
environment variables `CLAUDECODE` and `ANTHROPIC_API_KEY` are kept from it.

## Layout

- `src/` is the library.
  - `client`: the requests and how their answers are read.
  - `agent`: who the agent is, which events it reacts to and when it pings.
  - `turn`, `output`: how a reply is streamed into a draft.
  - `update`, `version`: which release is newer and how it is installed.
  - `settings`, `assistant`: what the user asks for.
  - `json`, `text`: what the others are written with.
- `app/` is the program around it: network, processes and files. It does what the
  library says is to be done and hands back what came of it. Of its own it has where
  the running binary is found and what is printed.
- `tests/` runs the library on concrete values.

What the library takes on trust is in `json`: that `serde_json` reads the same
value from the same text or bytes every time, and what the variants of its value
type hold. All else is proved. The proof functions whose names begin with `law_`
state what holds across functions, such as that a reply arrives unchanged
(`turn::law_reply_arrives_unchanged`), that its draft is finalized
(`turn::law_draft_is_finalized`, `turn::law_turn_finishes`), and that an update is
not offered to itself (`version::law_tag_is_not_newer_than_its_version`).
