# FerroBank core

The rules of a small core-banking system, verified with Verus: accounts and
their lifecycle, transfers confirmed with one-time codes and screened by
fraud rules, staff adjustments under dual control, loans with dual approval,
sign-in security, and the Telegram link.

Amounts are whole cents (`i64`, the range of a `NUMERIC(18,2)` column),
interest rates hundredths of a percent, times microseconds.

## Layout

- `src/` – the verified library.
  - `ledger.rs` – the books (accounts, transfers, limit changes, parked
    adjustments, loans) and every operation on them, with the laws that
    hold of them: money is conserved, balances never go negative, a
    transfer pays out at most once, a loan pays out once after both staff
    roles approve.
  - `transfer.rs`, `accounts.rs`, `loans.rs` – the decisions the ledger
    applies: confirmation checks and fraud rules, account actions and dual
    control, loan checks and approvals.
  - `bank.rs` – creating transfers (checks, rate limit, code) and the race
    demonstration; `ratelimit.rs` – five transfers per account per minute.
  - `otp.rs`, `actions.rs` – one-time codes (argon2-hashed, single-use,
    owner-bound, ten minutes, three tries).
  - `users.rs`, `security.rs`, `session.rs` – registration and sign-in,
    first-seen origins and origin blocks, the guards in front of pages.
  - `telegram.rs`, `notices.rs` – the bot's commands and links, toasts and
    the audit log.
  - `effects.rs` – what an operation announces: the audit events (named as
    `transfer.completed`, `transfer.held`, `account.frozen.suspected_hijack`,
    `auth.login.new_origin`, ...) and the notices to the customers involved,
    returned by the operations and delivered by the server.
  - `money.rs`, `text.rs`, `forms.rs`, `config.rs`, `models.rs`,
    `records.rs`, `view.rs`, `errors.rs` – values, text, form input,
    configuration and the rows pages show.
- `tests/` – scenarios and edge cases run against the compiled library.
- `app/` – the web server (actix-web), the Telegram poller and the demo seed.
  State is kept in memory behind one lock; the server records every
  announced event in the audit log and delivers every notice as a toast and
  on Telegram.
