# macro_core

Verified core logic of the Macro services and tooling, written in Verus.

- `src/` is the library; every function there carries a contract that Verus
  proves. Modules:
  - `workspace_graph`, `dependency_paths`, `ranking`, `slim_plan`: the
    dependency-slimming planner (workspace closures, dependency paths,
    single-target cut plans, top-heavy ranking);
  - `workflow_steps`, `ci_steps`, `fluent`: CI workflow steps and jobs;
  - `document_api`, `decimal`: the lean document-storage API decisions;
  - `tracking`, `text`: open tracking and read-receipt settings;
  - `gmail_subscription`: the Gmail watch subscription protocol;
  - `call_rtc`, `auth_context`: the disabled RTC client and token contexts.
- `tests/` runs the library on concrete inputs.
- `app/` is the program around it: the `slim-plan` command line over a
  `guppy` package graph, the HTTP and database edges, and the conversion of
  workflow steps to `gh_workflow` values.
