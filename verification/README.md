# hwcodec

Decoding video with FFmpeg's hardware and software decoders, with the decisions
verified by Verus.

`src/` is the verified library. It makes no calls into FFmpeg: where a decision
needs an answer from it, the function takes a closure that gets the answer, and
its contract says what follows from each answer.

- `ffmpeg_ram::decode`: opening a decoder, and what is made of its replies.
- `ffmpeg_ram::frame`: pictures as FFmpeg hands them over, and the frames made of
  them.
- `ffmpeg_ram::candidates`: the decoders to look for on each kind of machine.
- `ffmpeg_ram::probe`: trying candidates out and keeping those that work.
- `ffmpeg_ram::laws`: what holds of every list that was tried out.
- `link`: which libraries a build links, and which files it looks for.
- `c_string`, `text`: strings for C, and decimal numbers.

`app/` drives FFmpeg's C interface through the library (`decode.rs`), and compiles
and links the C++ sources (`build_script.rs`).
