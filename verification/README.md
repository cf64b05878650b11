# regasi

Speech-to-text on Jitsi Meet conferences, for transcription and captioning. Each
participant's audio is sent to Amazon Transcribe as a stream of signed frames, and what
comes back is sent to the conference as captions, put on record, or both.

- `src/` is the library. Verus proves that its functions meet their contracts.
  - `conference`: how a conference is joined.
  - `session`: what is done as participants come and go, and where events go.
  - `model`: the events that are reported.
  - `timestamp`, `text`: instants and texts.
  - `transcriber`: the services, and in `transcriber::aws` the one of Amazon: frames
    (`eventstream`), their signatures (`signing`), the request that opens a stream
    (`request`), the messages that come back (`response`), the events that they stand for
    (`model`, `speech`) and what holds of a stream as a whole (`run`).
- `app/` is the program around it: options, network, pipeline. It is not verified. That goes
  for the loops too that receive, parse and send in turn: each step asks the library what to
  do (`run::next_action`, `speech::SpeechEvents`, `session`), but nothing proves that the loop
  does it.
- `tests/` runs the library.

What is taken on trust:

- the functions marked `external_body` and the `assume_specification` items. Each says above
  it which function of another crate it stands for, and what is claimed of that function;
- the spec functions without a body (`uninterp`), which name what functions of other crates
  give: that the same values always give the same result;
- the types of other crates that are declared by `external_type_specification`, whose values
  are opaque.
