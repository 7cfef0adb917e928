# spaceship

A command-line client for the Spaceship API (domains, DNS records, contacts,
SellerHub and SafePay, Hyperlift, async operations), built for humans and for
LLM agents.

The crate is in two parts:

- `src/` is the library, verified with Verus. It decides everything the tool
  does: which call each command makes and with which body, what goes out on
  the wire for it (address, headers, body), how a reply or an
  HTTP status is read, which credentials a command uses, how accounts are kept,
  how DNS listings are paged and filtered, how errors are enveloped and which
  exit status they give, and how results are rendered as YAML. The account
  commands (`login`, `accounts add`, `list`, `test`, `remove`) are step
  functions: from where a command stands and what just happened, the library
  says what to do next, and laws state the order of those steps (nothing is
  stored before the API accepted the credentials, nothing is deleted before the
  removal was confirmed).
- `app/` is the program around it: argument parsing, the HTTP client, files,
  the terminal, and printing. It hands the library plain values, carries out
  each action the library decides on, and reports back what happened.

`tests/` holds the scenarios of the tool played through the library, and the
exact values of its functions on chosen inputs.
