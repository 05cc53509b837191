# ytmusicdw

A terminal tool that lists a YouTube playlist with yt-dlp, lets you pick
tracks, downloads them at CD-audio spec and burns an audio CD.

- `src/` is the verified library: the tool's state machine (`app`), the
  playlist model and file naming (`ytdlp`), the CD-spec checks (`convert`),
  the burner inputs (`burn`: cdrdao TOC with CD-Text, IMAPI2 probe, raw
  PCM, printable tracklist), the screen text (`ui`), text primitives
  (`text`) and the properties that span operations (`laws`).
- `app/` is the program around it: terminal drawing, key events, worker
  threads, and the calls to yt-dlp, hound, cdrdao and PowerShell.
