# srtui

A terminal player for the channels of Sveriges Radio, with a three-minute time-shift window,
recording, colour themes and a visualizer.

`src/` is a library whose functions are verified with Verus. It holds everything that the
player decides and computes without floating point:

- `audio`, `engine`: the window over the live stream, playback in it, and the audio controls;
- `worker`: what the stream worker does next, and what it makes known;
- `resample`, `visualizer`, `cava`: where resampled values come from, what is drawn, and the
  external spectrum monitor;
- `theme`, `error`, `config`, `channels`, `recording`: themes, choices, channels, recordings;
- `control`, `panels`, `panes`: key bindings, the texts on the screen, and its division;
- `text`: trimming, splitting, numbers and order of texts.

`app/` is the program around it: devices, network, files, processes, the terminal, and the
arithmetic on sample values.
