# Casino bot

A chat casino: slots, coin flips, dice, blackjack and draw poker, with accounts, a daily
reward, a faucet that lends tokens, and replies in several languages.

- `src/` holds the rules, written in Verus. A message or the press of a button is taken up
  by `conversation::Conversation` or `press::Pressing`. Both work in steps: an answer from
  the outside goes in, a list of actions comes out, and the contracts say exactly which.
  `accounts` states what the steps do to the books.
- `app/` connects the rules with Telegram and PostgreSQL: it performs the actions and
  brings back the answers.
- `tests/` runs the library on concrete values.

The program needs `DATABASE_URL` and `TELOXIDE_TOKEN`; `PORT` is the port of its
keep-alive server (8080 where it is not set). Texts are read from `translations.json` in
the working directory.
