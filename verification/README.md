# devzen-bots

The logic of two Matrix bots of the DevZen podcast, verified with Verus:

- the feed bot polls the podcast's RSS feed and sends each new episode to users and
  rooms. An episode whose link was recorded is not sent again, provided that the record
  ends with a full line and that the link holds no line feed and does not end with a
  carriage return;
- the topics bot waits for Trello's webhook and, when a card is moved to the list "In
  Discussion", sends the card's title and the addresses in its description to users and
  rooms.

## Layout

- `src/` is the library. `feed/` and `topics/` hold the rules of the two bots: what
  is new, what is said, and which step follows which. Whatever waits for the network
  is a state machine there, from a state and an event to the next state, an action and
  what the operator is told. `recipient.rs` and `delivery.rs` hold whom both bots
  write to, and how. `text.rs` holds the operations on text, `outside.rs` the
  calls into other crates, whose contracts are not proved. Functions named `law_..`
  state what holds of the bots as a whole.
- `tests/` runs the library on given values.
- `app/` is the executable: configuration, network and files. It performs the actions
  and hands the events back. Started as `devzen-matrix-topics-bot` it is the topics
  bot, under any other name the feed bot; either takes the path of its TOML file.

## Trello

The application key comes from <https://trello.com/app-key>, and the read token from
`https://trello.com/1/authorize?expiration=never&name=DevZenShownotesGen&key=TRELLO_APP_KEY&scope=read&response_type=token`.
The webhook's callback URL ends in `/trellohook`, and its model is the list "In
Discussion".
