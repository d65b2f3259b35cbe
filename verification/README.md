# jira_ai

A desktop program that answers questions from what an organisation keeps in
Jira and Confluence, and reviews new documents against it. `src/` is its logic,
verified with Verus; `app/` is the program around it: windows, files, requests
and the database.

## src/

| module | what it holds |
|---|---|
| `text`, `lists` | strings and lists, stated over sequences |
| `codec`, `xml`, `json` | encodings, XML events and JSON values |
| `chunking` | issues and pages as text, and text in chunks |
| `diagrams` | draw.io files and Mermaid blocks |
| `config` | settings, and what of them is secret |
| `atlassian` | addresses, and lists that come in parts |
| `ingest` | chunks of issues, pages, diagrams and images; the course of a synchronisation |
| `embedding`, `llm`, `vision` | requests to models, and what is read from the answers |
| `vectordb` | records, filter expressions, columns, and a store in memory |
| `chat`, `review` | what is asked of the language model, and what becomes of the answer |
| `app` | the state behind the windows |

Contracts speak of models: a `String` is a `Seq<char>`, and each type has a
`deep_view`. Proof functions named `law_..` state what holds of several
functions together. Single-precision numbers are held by their bit patterns.

What is believed of other crates stands at the functions marked
`external_body`: the events of quick-xml, base64, raw deflate, the form encoding
of URLs, the chunks of text-splitter, the dates of chrono, and of the standard
library `from_utf8_lossy`, `to_lowercase` and `String::push`.

Where the outside work and the decisions alternate, a value of the library says
what to do next and takes in what came of it: `IssueSearch`, `PageList`,
`AttachmentList`, `PageExtras`, `IssueImages`, `EmbedRun`, `ReviewRun`,
`SyncStage`, and `after_attempt`.
