# pubsub_broker

A publish/subscribe message broker spoken to over HTTP, written in Verus.

- `src/` is the verified library:
  - `text`: prefixes, splitting at a character or at `"\r\n"`, decimal
    writing and reading of integers, string building.
  - `http_comms_lib`: reading broker requests out of request text
    (`http_request_extracter`, with a line-by-line reader for bodies that
    are sent separately), reading the requests of the plain queue service
    (`request_handler`), and answering broker requests
    (`http_request_handler`).
  - `pub_sub_lib`: the broker state (`shared_memory`) and the managers of
    topics, queue channels and subscriptions.
  - `queue_lib`, `int_queue_lib`: first-in first-out message queues with
    their producers and consumers.
  - `json_text`, `regex_match`: the calls into `serde_json` and `regex`.
  - `assoc`: key/value lists read as maps.
- `app/` is the server around it: TCP connections, threads, the shared state
  behind a mutex, and the timing records.
- `tests/` runs the library on concrete requests.
