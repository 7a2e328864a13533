# hkmu_ole_attendance

Automatic class-activity attendance for HKMU's Online Learning Environment
(OLE): fetch the day's timetable from the OLE `oledb` API, report it, and poll
each class's attendance activity until it is recorded or the class ends.

The crate is verified with Verus.

- `src/` is the library. Every decision lives here with a contract proved by
  Verus: parsing the portal's HTML and the LTPA token, the cookie jar, the
  redirect policy, the SSO login chain, the timetable selection and messages,
  the attendance polling policy, the setup retries and the session cache's
  reuse and backoff rules. Calls into `jiff`, `url` and `base64` sit behind
  small trusted wrappers whose contracts are stated in their doc comments.
- `app/` is the program around it: command-line parsing, the environment,
  HTTP over `reqwest`, the Tokio tasks, Discord and log notifications, and the
  submitted coordinates (floating point). It performs what the library's state
  machines ask for and feeds their answers back.
- `tests/` exercises the library on concrete values.
