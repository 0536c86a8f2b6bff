# hyperliquid_ws

The subscription logic of a Hyperliquid websocket client, verified with Verus.

- `src/` is the verified library: the JSON text of subscription identifiers
  and of subscribe, unsubscribe and ping requests (`subscription`, `json`,
  `protocol`), the routing key of every incoming message (`message`), the
  subscription table that groups subscribers, hands out ids, refuses a second
  user-events subscriber and decides when a feed is started or stopped on the
  socket (`table`), and the laws that tie these together (`laws`).
- `app/` is the websocket around it: connecting, the reader and ping tasks,
  the serde forms of the messages (each message keeps the JSON text of its
  `data` member for its subscribers), and the channels to subscribers.
- `tests/` runs the library on concrete values.
