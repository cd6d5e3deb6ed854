# remove_bars

Detects and removes black bars (letterboxing and pillarboxing) from videos with ffmpeg.

`src/` is the verified library. It reads the crop values that ffmpeg reports, selects one of them,
decides whether it is worth applying, and steers what becomes of each video:

- `text` builds texts and numbers;
- `crop` reads crop values and measures how much of a frame they trim;
- `counter` counts the values that ffmpeg reports and selects the most frequent one;
- `capture` keeps the log lines that explain a failure;
- `detect` gathers the events of a detection run;
- `encoder` knows the video encoders and their arguments;
- `process` steers the processing of one file, and how an encode replaces its original;
- `scan` holds scan results, their batches and counts;
- `index` plans the work that a scan database leaves to do;
- `run` takes up the files of a crop run one after the other;
- `progress` formats the progress displays;
- `paths` tells videos, directories and databases apart.

Regular expressions come from the `regex` crate, and the widths of texts on a terminal from the
`console` crate. What is believed of them stands in the contracts of the functions that call them.

`app/` is the command line program around the library: arguments, files, the SQLite database and the
ffmpeg processes. `tests/` runs the library on concrete values.
