# Resy

**Re**mote **Sy**nc change detection: finds out what was added, modified and deleted in an AWS S3
bucket since the last look at it.

The library under `src/` decides; it performs no input or output. A `DiffSession` names one action at
a time, the caller performs it and hands the outcome back with `resume`. What a session decides is
specified and proved with Verus.

| Module | What it holds |
| --- | --- |
| `object` | objects, what is remembered of them, changes and counts |
| `timestamp` | points in time |
| `listing` | pages of a bucket's listing |
| `secret`, `client` | the bucket, its credentials and what a client is configured with |
| `protocol` | how a session goes on, given how its last action went |
| `session` | sessions that run |
| `schema` | the state database and the statement behind each action |
| `world` | the bucket, the database and the change handler that a session works on |
| `order` | the order in which a session goes through a listing, whatever goes wrong |
| `course` | the invariant of a session on which nothing goes wrong |
| `laws` | what holds of every session |

`app/` runs sessions against the AWS SDK and SQLite. SQLite 3.35.0 or later is needed to remove the
temporary column `temp_seen`; an older one keeps it.

Credentials are held in `secrecy::SecretString`. `S3::zeroize` wipes them, as its contract says. That
they are also wiped when they are dropped is the work of secrecy's own `Drop`; nothing is proved of it
here.
