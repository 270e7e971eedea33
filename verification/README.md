# down_on_spot

A Spotify downloader for the command line, with its core verified by Verus.

- `src/` is the verified library:
  - `text`: decimal notation, padding, joining, splitting and replacing text,
    each specified over `Seq<char>`;
  - `media`: file formats, container formats, qualities and the choice of the
    file to download, falling back to lower qualities;
  - `config`: downloader settings and their defaults;
  - `queue`: the download queue and the scheduler of download jobs, as state
    machines, with their invariants;
  - `template`: track metadata, sanitized names and `%placeholder%` file name
    templates;
  - `uri`: reading Spotify URLs and `spotify:` URIs;
  - `spotify_id`: the 128-bit number that a base-62 id or a URI names;
  - `tags`: ID3 frames and Vorbis comments written into downloaded files;
  - `status`: progress counts, elapsed time and the event log;
  - `converter`: settings, errors and read decisions of the MP3 conversion;
  - `error`: error types and their messages.
- `app/` is the program around it: command line, settings file, Spotify
  sessions, channels and tasks, network and file I/O, and the MP3 encoder.
- `tests/` exercise the library on concrete values.
