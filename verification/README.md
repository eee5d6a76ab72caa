# ark_msg

Simple messaging on top of ark, with its logic verified by Verus.

- `src/` is the library. It holds the rules of chats, messages, invites and
  conversations, the times that are shown, the command line's texts, and the
  terminal interface as a state machine. Every function states what it returns
  in its contract; the public proof functions state what holds of the library as
  a whole.
- `app/` is the program around it: the command line, the terminal, and the calls
  to ark. It reads what the library asks for, and carries out what it decides.
- `tests/` runs the library.

The library does no input or output. An operation on a chat takes what the local
mirror holds as plain values and returns a plan (`plan::Action`): steps to be
carried out in order, up to the first that fails. The terminal interface
(`tui::model::App`) takes events and returns effects (`tui::model::Effect`); the
outcome of an effect goes back to the interface by the method that the effect
names.
