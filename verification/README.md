# content_density

Text-density statistics for HTML pages, verified with Verus.

- `src/dom.rs`: a plain model of a parsed document (elements by tag name, text, other nodes),
  and the parse of a page's text with html5ever into that model.
- `src/node_info.rs`: the statistics of each node (elements, text length, links, paragraphs,
  punctuation, text density and symbol density as exact quotients), computed from the
  document model, and the search for the `body` element.
- `src/page.rs`: the page reader's variant of the statistics (integer text density) and
  the `body` elements it handles.
- `src/string.rs`: removal of blanks and `escape_default`.
- `src/laws.rs`: properties proved of the above for all inputs.
- `app/`: fetching the page (reqwest), the floating-point scoring, and printing.
