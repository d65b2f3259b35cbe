//! Filter expressions.
use crate::text;
use crate::text::{chars_of, joined};
use crate::vectordb::{FilterView, SearchFilter};
use vstd::prelude::*;

verus! {

/// Whether `c` is a control character below the space.
pub open spec fn is_control(c: char) -> bool {
    (c as u32) < 0x20
}

/// `s` without control characters.
pub open spec fn without_controls(s: Seq<char>) -> Seq<char>
    decreases s.len(),
{
    if s.len() == 0 {
        s
    } else if is_control(s[0]) {
        without_controls(s.drop_first())
    } else {
        seq![s[0]] + without_controls(s.drop_first())
    }
}

/// How a character stands in a quoted text: quotes and backslashes twice,
/// control characters not at all.
pub open spec fn escaped_char(c: char) -> Seq<char> {
    if is_control(c) {
        Seq::empty()
    } else if c == '\'' || c == '\\' {
        seq![c, c]
    } else {
        seq![c]
    }
}

/// A text as it stands between single quotes.
pub open spec fn escaped(s: Seq<char>) -> Seq<char>
    decreases s.len(),
{
    if s.len() == 0 {
        s
    } else {
        escaped_char(s[0]) + escaped(s.drop_first())
    }
}

/// A text as it stands between single quotes of a filter expression.
pub fn escape_sql(s: &str) -> (r: String)
    ensures
        r@ == escaped(s@),
{
    let v = chars_of(s);
    let mut out = String::new();
    let mut i: usize = 0;
    assert(v@.skip(0) =~= v@);
    assert(out@ + escaped(v@) =~= escaped(s@));
    while i < v.len()
        invariant
            i <= v@.len(),
            v@ == s@,
            out@ + escaped(v@.skip(i as int)) == escaped(s@),
        decreases v@.len() - i,
    {
        let ghost before = out@;
        let ghost rest = v@.skip(i as int);
        let c = v[i];
        assert(rest.drop_first() =~= v@.skip(i + 1));
        if c as u32 >= 0x20 {
            out.push(c);
            if c == '\'' || c == '\\' {
                out.push(c);
            }
        }
        i += 1;
        assert(out@ =~= before + escaped_char(c));
        assert(out@ + escaped(v@.skip(i as int)) =~= before + escaped(rest));
    }
    assert(out@ + escaped(v@.skip(i as int)) =~= out@);
    out
}

/// An equation between a column and a text.
pub open spec fn equation(column: Seq<char>, value: Seq<char>) -> Seq<char> {
    column + " = '"@ + escaped(value) + "'"@
}

/// An equation between a column and a text.
pub fn equation_of(column: &str, value: &str) -> (r: String)
    ensures
        r@ == equation(column@, value@),
{
    let mut out = column.to_owned();
    out.append(" = '");
    out.append(escape_sql(value).as_str());
    out.append("'");
    out
}

/// The condition that a record is of this source.
pub fn source_expr(source_type: &str) -> (r: String)
    ensures
        r@ == equation("source_type"@, source_type@),
{
    equation_of("source_type", source_type)
}

/// The condition that a record has this id.
pub fn id_expr(id: &str) -> (r: String)
    ensures
        r@ == equation("id"@, id@),
{
    equation_of("id", id)
}

/// The conditions of a filter.
pub open spec fn filter_clauses(filter: FilterView) -> Seq<Seq<char>> {
    (match filter.source_type {
        Some(s) => seq![equation("source_type"@, s)],
        None => Seq::empty(),
    }) + (match filter.project_or_space {
        Some(s) => seq![equation("space_or_project"@, s)],
        None => Seq::empty(),
    })
}

/// The condition that a filter stands for, if it restricts anything.
pub fn build_filter_expr(filter: &SearchFilter) -> (r: Option<String>)
    ensures
        r.deep_view() == (if filter_clauses(filter.deep_view()).len() == 0 {
            None::<Seq<char>>
        } else {
            Some(text::join(filter_clauses(filter.deep_view()), " AND "@))
        }),
{
    let mut clauses: Vec<String> = Vec::new();
    if let Some(s) = &filter.source_type {
        clauses.push(equation_of("source_type", s.as_str()));
    }
    if let Some(s) = &filter.project_or_space {
        clauses.push(equation_of("space_or_project", s.as_str()));
    }
    assert(clauses.deep_view() =~= filter_clauses(filter.deep_view()));
    if clauses.len() == 0 {
        None
    } else {
        Some(joined(&clauses, " AND "))
    }
}

// ---------------------------------------------------------------------------
// Laws

/// A quoted text read back: of two equal quotes or backslashes one counts.
pub open spec fn unescaped(s: Seq<char>) -> Seq<char>
    decreases s.len(),
{
    if s.len() == 0 {
        s
    } else if (s[0] == '\'' || s[0] == '\\') && s.len() > 1 && s[1] == s[0] {
        seq![s[0]] + unescaped(s.skip(2))
    } else {
        seq![s[0]] + unescaped(s.drop_first())
    }
}

/// The length of the quoted text that `s` begins with, up to its closing
/// quote: two quotes in a row are a quote in the text, one alone closes it.
pub open spec fn quoted_len(s: Seq<char>) -> Option<int>
    decreases s.len(),
{
    if s.len() == 0 {
        None
    } else if s[0] == '\'' {
        if s.len() > 1 && s[1] == '\'' {
            match quoted_len(s.skip(2)) {
                Some(n) => Some(n + 2),
                None => None,
            }
        } else {
            Some(0)
        }
    } else {
        match quoted_len(s.drop_first()) {
            Some(n) => Some(n + 1),
            None => None,
        }
    }
}

/// An escaped text holds no control character.
pub proof fn law_escaped_holds_no_control(s: Seq<char>)
    ensures
        forall|i: int| 0 <= i < escaped(s).len() ==> !is_control(#[trigger] escaped(s)[i]),
    decreases s.len(),
{
    if s.len() > 0 {
        law_escaped_holds_no_control(s.drop_first());
        let head = escaped_char(s[0]);
        let tail = escaped(s.drop_first());
        assert forall|i: int| 0 <= i < escaped(s).len() implies !is_control(
            #[trigger] escaped(s)[i],
        ) by {
            assert(escaped(s)[i] == if i < head.len() { head[i] } else { tail[i - head.len()] });
        }
    }
}

/// An escaped text read back is the text without its control characters.
pub proof fn law_escaped_reads_back(s: Seq<char>)
    ensures
        unescaped(escaped(s)) == without_controls(s),
    decreases s.len(),
{
    if s.len() > 0 {
        let c = s[0];
        let tail = escaped(s.drop_first());
        law_escaped_reads_back(s.drop_first());
        if is_control(c) {
            assert(escaped(s) =~= tail);
        } else if c == '\'' || c == '\\' {
            assert(escaped(s).skip(2) =~= tail);
        } else {
            assert(escaped(s).drop_first() =~= tail);
        }
    }
}

/// The value of an equation cannot end its quoted text early: whatever stands
/// behind the closing quote, the quoted text is the whole escaped value.
pub proof fn law_escaped_stays_quoted(s: Seq<char>, rest: Seq<char>)
    requires
        rest.len() == 0 || rest[0] != '\'',
    ensures
        quoted_len(escaped(s) + seq!['\''] + rest) == Some(escaped(s).len() as int),
    decreases s.len(),
{
    let all = escaped(s) + seq!['\''] + rest;
    if s.len() == 0 {
        assert(all[0] == '\'');
        assert(all.len() > 1 ==> all[1] == rest[0]);
    } else {
        let c = s[0];
        let tail = escaped(s.drop_first());
        let below = tail + seq!['\''] + rest;
        law_escaped_stays_quoted(s.drop_first(), rest);
        if is_control(c) {
            assert(all =~= below);
        } else if c == '\'' {
            assert(all.skip(2) =~= below);
        } else if c == '\\' {
            assert(all.drop_first() =~= seq!['\\'] + below);
            assert((seq!['\\'] + below).drop_first() =~= below);
            assert(quoted_len(seq!['\\'] + below) == Some(tail.len() + 1int));
        } else {
            assert(all.drop_first() =~= below);
        }
    }
}

/// A text without quotes, backslashes and control characters stands as it is.
pub proof fn law_plain_text_is_not_escaped(s: Seq<char>)
    requires
        forall|i: int|
            0 <= i < s.len() ==> !is_control(#[trigger] s[i]) && s[i] != '\'' && s[i] != '\\',
    ensures
        escaped(s) == s,
    decreases s.len(),
{
    if s.len() > 0 {
        let rest = s.drop_first();
        assert forall|i: int| 0 <= i < rest.len() implies !is_control(#[trigger] rest[i])
            && rest[i] != '\'' && rest[i] != '\\' by {
            assert(rest[i] == s[i + 1]);
        }
        law_plain_text_is_not_escaped(rest);
        assert(escaped(s) =~= s);
    }
}

} // verus!
