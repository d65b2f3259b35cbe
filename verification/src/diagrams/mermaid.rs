//! Mermaid diagrams.
use crate::text::ends_with;
use vstd::prelude::*;

verus! {

/// A heading in brackets, with a title behind it where there is one.
pub open spec fn heading(kind: Seq<char>, title: Option<Seq<char>>) -> Seq<char> {
    match title {
        Some(t) => "["@ + kind + ": "@ + t + "]\n"@,
        None => "["@ + kind + "]\n"@,
    }
}

/// `heading`, executable.
pub fn heading_of(kind: &str, title: Option<&str>) -> (r: String)
    ensures
        r@ == heading(kind@, title.deep_view()),
{
    let mut out = "[".to_owned();
    out.append(kind);
    if let Some(t) = title {
        out.append(": ");
        out.append(t);
    }
    out.append("]\n");
    out
}

/// The text of a Mermaid block: a heading, and the source, which ends in a
/// line feed.
pub open spec fn mermaid_text(source: Seq<char>, title: Option<Seq<char>>) -> Seq<char> {
    let text = heading("Mermaid 図"@, title) + source;
    if "\n"@.is_suffix_of(source) {
        text
    } else {
        text + "\n"@
    }
}

/// The text of a Mermaid block.
pub fn extract_mermaid_text(source: &str, title_hint: Option<&str>) -> (r: String)
    ensures
        r@ == mermaid_text(source@, title_hint.deep_view()),
{
    let mut out = heading_of("Mermaid 図", title_hint);
    out.append(source);
    if !ends_with(source, "\n") {
        out.append("\n");
    }
    out
}

/// The text of a Mermaid block ends in a line feed.
pub proof fn law_mermaid_text_ends_in_line_feed(source: Seq<char>, title: Option<Seq<char>>)
    ensures
        "\n"@.is_suffix_of(mermaid_text(source, title)),
{
    let nl = "\n"@;
    let text = heading("Mermaid 図"@, title) + source;
    if nl.is_suffix_of(source) {
        assert(text.skip(text.len() - nl.len()) =~= source.skip(source.len() - nl.len()));
        assert(text.subrange(text.len() - nl.len(), text.len() as int) =~= source.subrange(
            source.len() - nl.len(),
            source.len() as int,
        ));
    } else {
        assert((text + nl).subrange(text.len() as int, (text + nl).len() as int) =~= nl);
    }
}

} // verus!
