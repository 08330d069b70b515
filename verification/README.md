# PrintLTools

A launcher that lives in the Windows tray and offers three tools:

- the folder page counter adds up the pages of the PDFs and documents in a folder,
- the USB safe eject tool closes what holds a drive and has it ejected,
- the PDF joiner makes one PDF of several.

## Layout

- `src/` is the library, verified with Verus: the state of the launcher and what it
  shows (`app`), counting (`page_counter`), joining (`pdf`), ejecting (`usb`), the
  tray and the window (`tray`, `window_control`), running programs (`commands`),
  and texts (`text`, `wide`, `bytes`, `paths`).
- `app/` is the program around it: files, processes, threads, dialogs, the tray and
  the window, which cssimpler draws. Its style sheet `app.css` is read from beside
  the program.
- `tests/` runs the library.

PDF files are read and written by lopdf, and compressed package entries by flate2.
What the library relies on of them is stated in `src/pdf/documents.rs` and
`src/page_counter/docx.rs`; what it relies on of the standard library beyond vstd is
stated in `src/commands.rs`, `src/paths.rs`, `src/text.rs` and `src/wide.rs`.
