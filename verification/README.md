# Cast Client

A native chat client for language models, with built-in tools and MCP servers.

- `src/` is the verified library, checked by Verus:
  - `chat/` — sending messages and applying the completion task's events
    (`completion`), the agent loop as a state machine (`agent`), the built-in
    tools and the preferences that enable them (`tools`), MCP server
    configurations (`mcp`) and the MCP client's protocol logic and bookkeeping
    (`mcp_client`);
  - `storage` — the stored documents (tool preferences, MCP servers) and how a
    stored text is read back;
  - `multiagent` — requests to OpenAI-compatible completion endpoints and what
    their replies mean;
  - `view` — what the window shows and the form that adds a server;
  - `json`, `text`, `net`, `types` — the JSON model, string helpers, HTTP
    details and the conversation types.
- `app/` is the program around it: the window, files, network, processes and
  the MCP connections.
- `tests/` exercise the library on concrete values.
