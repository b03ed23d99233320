# discord-we

A private, guild-specific Discord bot: every manageable member of one
configured guild carries the same guild nickname, `We` unless `OUR_NAME`
says otherwise, and any deviation is reconciled back.

- `src/` is the library, verified with Verus: configuration and the name
  everyone becomes, the reconciliation decision and role hierarchy, the
  answer to each gateway event, the coalescing queue, bounded retries, and
  the full-guild sweep page by page. Each public function states what it
  returns; the properties the bot relies on (foreign guilds are ignored,
  a member carrying the name is never renamed again, retries are bounded,
  one sweep at a time, ...) are proved as lemmas beside the code.
- `app/` is the program: the Serenity gateway client, REST calls, Tokio
  workers, timers, signals and logs. It asks the library what to do and
  does it.
- `tests/` runs the library on concrete values.

Discord setup: enable the privileged Server Members intent for the
application, invite the bot into the target guild with the Manage Nicknames
permission (and optionally Change Nickname, so it can rename itself), and
move its role above every role it should manage. Configure `DISCORD_TOKEN`
and `TARGET_GUILD_ID` (required), `OUR_NAME` and
`RECONCILE_INTERVAL_SECONDS` (optional) in the environment.
