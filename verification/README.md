# kuber

Ephemeral kubeconfig manager for DigitalOcean Kubernetes clusters, wrapping
kubie with on-demand config fetching through doctl.

- `src/` is the verified library (Verus): cache layout (`cache`), cluster
  records and their views (`cluster`), doctl command lines and answers
  (`doctl`), the picker's name list, background-sync merge and preview pane
  (`commands`), and the context switch as a state machine (`flow`), with the
  string building blocks in `text`.
- `app/` is the program around it: environment and user id, the command line,
  files, running doctl and kubie, JSON (de)serialisation and the skim picker.
- `tests/` exercises the library on concrete values.
