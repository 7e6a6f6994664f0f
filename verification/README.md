# Exom

Exom is a hall-based collaboration platform: members of a hall chat, share a
chest of files, launch tools in their own windows and are helped by bots
(the Town Crier announces presence, the Archivist writes daily archives). One
member's machine hosts a hall; the others connect to it through an invite.

This crate holds its logic as a Verus library, each function stated with a
contract and proved:

- `roles`, `permissions`, `hosting`, `invariants`, `models`, `auth`, `halls`:
  who may do what in a hall, host election with epochs, accounts and sessions.
- `net::*`: the wire protocol, length-prefixed frames, invite links, and the
  decisions of the hall server (`ServerState`) and of a connected client
  (`ClientState`); `network` is the session as the user interface sees it.
- `chat`, `state`, `format`, `summary`: the chat timeline, pending messages,
  typing and activity, and the texts shown.
- `bot`, `manifest`, `town_crier`, `archive`, `archivist`: bot capabilities,
  the registry of bot packages, and the two built-in bots.
- `workspace`, `chest`, `tools`, `order`: tabs, the file browser, the hall
  chest and external tools.

`app/` is the program around it: the SQLite store, sockets, processes, the
file system and a terminal front-end. Outside calls that the library itself
makes (time, identifiers, hashing, randomness, path handling) go through small
trusted wrappers, each documented where it is declared.
