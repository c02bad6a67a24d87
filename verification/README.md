# shell

A small interactive shell. The library (`src/`) holds what the shell
decides, each function with a contract and the proof that it holds:

- `lexer`: splitting a command line into words (quotes, backslash escapes);
- `redirect`: `>`, `>>`, `1>`, `1>>`, `2>`, `2>>` and where each output stream goes;
- `command`: the builtins `exit`, `echo`, `type`, `pwd`, `cd`, and the requests
  for work that needs the operating system (searching the path, the working
  directory, running a program), each with a `finish` that builds the result
  from the outcome;
- `completion`: completing builtin and executable names;
- `paths`: the directories of the search path;
- `text`: whitespace, trimming and string comparison;
- `laws`: properties of the shell as a whole.

`app/` is the program around it: the line editor (rustyline), the file system,
the working directory and child processes.
