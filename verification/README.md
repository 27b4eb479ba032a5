# pgerd

Draws the entity-relationship diagram of a PostgreSQL database.

- `src/` is the verified library:
  - `db`: the schema model (tables, columns, foreign keys), building a
    schema from the rows of the catalog queries, and the sample schema;
  - `erd`: the graph built from a schema (nodes, edges, edge labels,
    display names), the per-node display state, node sizes and how each
    edge and column is highlighted;
  - `viewer`: the viewer's state machine (messages, follow-up effects,
    window title, keyboard shortcuts, command-line arguments);
  - `hover`: enter/leave tracking for a widget from pointer events;
  - `text`: small string operations.
- `app/` is the program around it: the PostgreSQL queries, the iced
  application, the graph widget and the drawing code.
- `tests/` exercises the library on concrete schemas and message sequences.
