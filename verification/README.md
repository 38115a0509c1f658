# crabcloud_http

The HTTP layer of a Nextcloud-compatible file server, as a verified Verus
library: the decisions the server takes on every request, each with a
contract proved by Verus.

## Layout

- `src/` — the library.
  - Request plumbing: `headers` (the header map and the WebDAV request
    headers), `auth` (bearer / basic / session-cookie authentication and its
    precedence), `csrf`, `security_headers`, `asset_rewrite`, `session` and
    `session_layer` (signed session cookies, the session blob's lifecycle),
    `router` (body limit, CORS origins, public-link path gates).
  - WebDAV: `dav_methods` (dispatch of the files, trash-bin, versions and
    public-link surfaces, `GET` plans, `PUT` preconditions), `dav_moves`
    (`MOVE`/`COPY`, chunked uploads), `dav_lock`, `propfind`, `proppatch`,
    `dav_listings` (trash-bin and versions collections), `dav_error`,
    `xml`, `trashbin`, `versions`.
  - Public links and previews: `public_link` (download, upload collisions,
    unlock), `preview`, `zip`.
  - OCS: `ocs` (errors and envelope statuses), `ocs_user`, `admin_users`,
    `admin_groups`, `login`, `ocs_feeds` (activity, search, shares).
  - `codec` holds the calls into outside crates (percent-encoding, base64,
    HMAC, constant-time comparison, hex, randomness, HTTP dates, bcrypt,
    header-value validity, UUIDs, calendar dates); the XML writer and
    reader are called from `xml` and `proppatch`. `text` holds the string
    helpers the proofs are built on.
- `tests/` — tests of the library on concrete values.
- `app/` — glue that stays outside the proofs: serde forms and the stored
  session record, the bundler's asset listing read from disk, conversions
  to and from `http` values, and the search cursor's float rank.

Handlers that interleave store or storage calls with decisions are state
machines here (`*Flow`, `Unlock`, `PutSelf`, `CollisionSearch`): each step
takes the outcome of the previous action as an event and names the next
action. The code that runs those actions against a database, a cache or
storage is not part of this crate.
