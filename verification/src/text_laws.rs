//! Laws on strings and lists.
use crate::lists;
use crate::text;
use vstd::prelude::*;

verus! {

/// What counts as white space, by the numbers of the characters.
pub proof fn law_white_space(c: char)
    ensures
        ({
            let n = c as u32;
            text::is_white(c) <==> (9 <= n <= 13 || n == 32 || n == 0x85 || n == 0xa0 || n == 0x1680
                || 0x2000 <= n <= 0x200a || n == 0x2028 || n == 0x2029 || n == 0x202f || n
                == 0x205f || n == 0x3000)
        }),
{
}

/// The first items of a list are as many as are asked for, or all where there
/// are fewer, and in order.
pub proof fn law_at_most<T>(s: Seq<T>, n: nat)
    ensures
        lists::at_most(s, n as int).is_prefix_of(s),
        lists::at_most(s, n as int).len() == (if s.len() <= n {
            s.len()
        } else {
            n
        }),
{
    let r = lists::at_most(s, n as int);
    assert(r =~= s.subrange(0, r.len() as int));
}

/// The first characters of a text are as many as are asked for, or all where
/// there are fewer, and in order.
pub proof fn law_first_chars(s: Seq<char>, n: nat)
    ensures
        text::first_chars(s, n as int).is_prefix_of(s),
        text::first_chars(s, n as int).len() == (if s.len() <= n {
            s.len()
        } else {
            n
        }),
{
    let r = text::first_chars(s, n as int);
    assert(r =~= s.subrange(0, r.len() as int));
}

/// A text on one line has as many characters, and each is the same but a line
/// feed, for which there is a space.
pub proof fn law_one_line(s: Seq<char>)
    ensures
        text::one_line(s).len() == s.len(),
        forall|i: int|
            0 <= i < s.len() ==> (s[i] == '\n' ==> #[trigger] text::one_line(s)[i] == ' ') && (s[i]
                != '\n' ==> text::one_line(s)[i] == s[i]),
{
}

// ---------------------------------------------------------------------------
// Searching

/// The place that is found is the first at which the pattern is, from where the
/// search begins; where none is found, there is no such place.
pub proof fn law_find_from(s: Seq<char>, p: Seq<char>, from: int)
    requires
        0 <= from <= s.len(),
    ensures
        match text::find_from(s, p, from) {
            Some(i) => {
                &&& from <= i
                &&& i + p.len() <= s.len()
                &&& s.subrange(i, i + p.len()) == p
                &&& forall|k: int|
                    from <= k < i && k + p.len() <= s.len() ==> #[trigger] s.subrange(
                        k,
                        k + p.len(),
                    ) != p
            },
            None => forall|k: int|
                from <= k && k + p.len() <= s.len() ==> #[trigger] s.subrange(k, k + p.len()) != p,
        },
    decreases s.len() - from,
{
    if !text::occurs_at(s, p, from) {
        if from < s.len() {
            law_find_from(s, p, from + 1);
        } else {
            assert(text::find_from(s, p, from + 1) is None);
        }
        assert(from + p.len() <= s.len() ==> s.subrange(from, from + p.len()) != p);
    }
}

/// A text holds a pattern if and only if the pattern is somewhere in it.
pub proof fn law_find(before: Seq<char>, p: Seq<char>, behind: Seq<char>)
    ensures
        text::find(before + p + behind, p) matches Some(i) && i <= before.len(),
{
    let s = before + p + behind;
    law_find_from(s, p, 0);
    assert(s.subrange(before.len() as int, (before.len() + p.len()) as int) =~= p);
}

/// The last place of a character is one at which it is, with none behind it;
/// where there is none, the text does not hold it.
pub proof fn law_rfind_char(s: Seq<char>, c: char)
    ensures
        match text::rfind_char(s, c) {
            Some(i) => 0 <= i < s.len() && s[i] == c && forall|k: int|
                i < k < s.len() ==> #[trigger] s[k] != c,
            None => forall|k: int| 0 <= k < s.len() ==> #[trigger] s[k] != c,
        },
    decreases s.len(),
{
    if s.len() > 0 && s.last() != c {
        law_rfind_char(s.drop_last(), c);
        assert forall|k: int| 0 <= k < s.len() - 1 implies #[trigger] s[k] == s.drop_last()[k] by {}
    }
}

// ---------------------------------------------------------------------------
// Words

proof fn lemma_words_apart(open: Seq<char>, a: Seq<char>, c: char, b: Seq<char>)
    requires
        text::is_white(c),
    ensures
        text::words_from(open, a + seq![c] + b) == text::words_from(open, a) + text::words(b),
    decreases a.len(),
{
    let s = a + seq![c] + b;
    let none = Seq::<char>::empty();
    if a.len() == 0 {
        assert(s[0] == c);
        assert(s.drop_first() =~= b);
        assert(text::words_from(open, a) == (if open.len() == 0 {
            Seq::<Seq<char>>::empty()
        } else {
            seq![open]
        }));
        assert(Seq::<Seq<char>>::empty() + text::words(b) =~= text::words(b));
    } else {
        let rest = a.drop_first();
        assert(s[0] == a[0]);
        assert(s.drop_first() =~= rest + seq![c] + b);
        if text::is_white(a[0]) {
            lemma_words_apart(none, rest, c, b);
            let x = text::words_from(none, rest);
            assert(seq![open] + (x + text::words(b)) =~= (seq![open] + x) + text::words(b));
        } else {
            lemma_words_apart(open.push(a[0]), rest, c, b);
        }
    }
}

proof fn lemma_word_grows(open: Seq<char>, w: Seq<char>)
    requires
        open.len() + w.len() > 0,
        forall|i: int| 0 <= i < w.len() ==> !text::is_white(#[trigger] w[i]),
    ensures
        text::words_from(open, w) == seq![open + w],
    decreases w.len(),
{
    if w.len() == 0 {
        assert(open + w =~= open);
    } else {
        let rest = w.drop_first();
        assert forall|i: int| 0 <= i < rest.len() implies !text::is_white(#[trigger] rest[i]) by {
            assert(rest[i] == w[i + 1]);
        }
        lemma_word_grows(open.push(w[0]), rest);
        assert(open.push(w[0]) + rest =~= open + w);
    }
}

/// White space parts a text into words: the words of a text are those before
/// a white character and then those behind it, and a text without white space is
/// one word, or none where it is empty.
pub proof fn law_words(a: Seq<char>, c: char, b: Seq<char>, w: Seq<char>)
    requires
        text::is_white(c),
        forall|i: int| 0 <= i < w.len() ==> !text::is_white(#[trigger] w[i]),
    ensures
        text::words(a + seq![c] + b) == text::words(a) + text::words(b),
        w.len() > 0 ==> text::words(w) == seq![w],
        w.len() == 0 ==> text::words(w).len() == 0,
{
    lemma_words_apart(Seq::empty(), a, c, b);
    if w.len() > 0 {
        lemma_word_grows(Seq::empty(), w);
        assert(Seq::<char>::empty() + w =~= w);
    }
}

/// Joined parts are those of the first and those of the second list with the
/// separator between them; one part is itself, and no part is nothing.
pub proof fn law_join(a: Seq<Seq<char>>, b: Seq<Seq<char>>, p: Seq<char>, sep: Seq<char>)
    requires
        a.len() > 0,
        b.len() > 0,
    ensures
        text::join(a + b, sep) == text::join(a, sep) + sep + text::join(b, sep),
        text::join(seq![p], sep) == p,
        text::join(Seq::empty(), sep).len() == 0,
    decreases b.len(),
{
    let all = a + b;
    if b.len() == 1 {
        assert(all.drop_last() =~= a);
    } else {
        assert(all.drop_last() =~= a + b.drop_last());
        law_join(a, b.drop_last(), p, sep);
        let x = text::join(a, sep);
        let y = text::join(b.drop_last(), sep);
        assert(x + sep + (y + sep + b.last()) =~= (x + sep + y) + sep + b.last());
    }
}

/// A text that is single-spaced is its words with one space between them.
pub proof fn law_single_spaced(s: Seq<char>)
    ensures
        text::single_spaced(s) == text::join(text::words(s), " "@),
{
}

/// The characters of a text that are no white space.
pub open spec fn ink(s: Seq<char>) -> Seq<char> {
    s.filter(|c: char| !text::is_white(c))
}

/// What is not white space in two texts together.
pub proof fn lemma_ink_adds_up(a: Seq<char>, b: Seq<char>)
    ensures
        ink(a + b) == ink(a) + ink(b),
{
    Seq::filter_distributes_over_add(a, b, |c: char| !text::is_white(c));
}

/// One character is kept or not.
pub proof fn lemma_ink_of_one(c: char)
    ensures
        ink(seq![c]) == (if text::is_white(c) {
            Seq::<char>::empty()
        } else {
            seq![c]
        }),
        ink(Seq::empty()) == Seq::<char>::empty(),
{
    reveal_with_fuel(Seq::<_>::filter, 2);
    let one = seq![c];
    assert(one.drop_last() =~= Seq::empty());
    assert(ink(one) =~= (if text::is_white(c) {
        Seq::<char>::empty()
    } else {
        seq![c]
    }));
}

/// A text of white space only has no ink.
pub proof fn lemma_white_has_no_ink(s: Seq<char>)
    requires
        forall|i: int| 0 <= i < s.len() ==> text::is_white(#[trigger] s[i]),
    ensures
        ink(s).len() == 0,
    decreases s.len(),
{
    lemma_ink_of_one('a');
    if s.len() > 0 {
        let prev = s.drop_last();
        assert forall|i: int| 0 <= i < prev.len() implies text::is_white(#[trigger] prev[i]) by {
            assert(prev[i] == s[i]);
        }
        lemma_white_has_no_ink(prev);
        lemma_ink_of_one(s.last());
        lemma_ink_adds_up(prev, seq![s.last()]);
        assert(prev + seq![s.last()] =~= s);
    } else {
        assert(s =~= Seq::empty());
    }
}

/// Trimming loses no character but white space.
pub proof fn law_trim_keeps_ink(s: Seq<char>)
    ensures
        ink(text::trim(s)) == ink(s),
{
    text::law_trim(s);
    let (i, j) = choose|i: int, j: int|
        0 <= i <= j <= s.len() && text::trim(s) == #[trigger] s.subrange(i, j) && (forall|k: int|
            0 <= k < i || j <= k < s.len() ==> text::is_white(#[trigger] s[k])) && (i < j
            ==> !text::is_white(s[i]) && !text::is_white(s[j - 1]));
    let a = s.take(i);
    let m = s.subrange(i, j);
    let b = s.skip(j);
    assert(s =~= a + m + b);
    assert forall|k: int| 0 <= k < b.len() implies text::is_white(#[trigger] b[k]) by {
        assert(b[k] == s[j + k]);
    }
    assert forall|k: int| 0 <= k < a.len() implies text::is_white(#[trigger] a[k]) by {
        assert(a[k] == s[k]);
    }
    lemma_white_has_no_ink(a);
    lemma_white_has_no_ink(b);
    lemma_ink_adds_up(a + m, b);
    lemma_ink_adds_up(a, m);
    assert(ink(a) + ink(m) + ink(b) =~= ink(m));
}

proof fn lemma_words_ink(open: Seq<char>, s: Seq<char>)
    requires
        forall|i: int| 0 <= i < open.len() ==> !text::is_white(#[trigger] open[i]),
    ensures
        ink(text::join(text::words_from(open, s), " "@)) == open + ink(s),
    decreases s.len(),
{
    let none = Seq::<char>::empty();
    reveal_strlit(" ");
    lemma_ink_of_one(' ');
    lemma_ink_open(open);
    assert(" "@ =~= seq![' ']);
    if s.len() == 0 {
        assert(s =~= none);
        assert(open + ink(s) =~= open);
        if open.len() == 0 {
            assert(open =~= none);
        } else {
            assert(text::words_from(open, s) =~= seq![open]);
        }
    } else {
        let rest = s.drop_first();
        assert(s =~= seq![s[0]] + rest);
        lemma_ink_adds_up(seq![s[0]], rest);
        lemma_ink_of_one(s[0]);
        if text::is_white(s[0]) {
            lemma_words_ink(none, rest);
            assert(none + ink(rest) =~= ink(rest));
            if open.len() == 0 {
                assert(open =~= none);
            } else {
                let more = text::words_from(none, rest);
                if more.len() == 0 {
                    assert(seq![open] + more =~= seq![open]);
                    assert(text::join(more, " "@) =~= none);
                    assert(open + ink(rest) =~= open);
                } else {
                    law_join(seq![open], more, open, " "@);
                    let j = text::join(more, " "@);
                    lemma_ink_adds_up(open + " "@, j);
                    lemma_ink_adds_up(open, " "@);
                    assert(open + none + ink(j) =~= open + ink(j));
                }
            }
        } else {
            let next = open.push(s[0]);
            assert forall|i: int| 0 <= i < next.len() implies !text::is_white(
                #[trigger] next[i],
            ) by {
                if i < open.len() {
                    assert(next[i] == open[i]);
                }
            }
            lemma_words_ink(next, rest);
            assert(next + ink(rest) =~= open + (seq![s[0]] + ink(rest)));
        }
    }
}

proof fn lemma_ink_open(open: Seq<char>)
    requires
        forall|i: int| 0 <= i < open.len() ==> !text::is_white(#[trigger] open[i]),
    ensures
        ink(open) == open,
    decreases open.len(),
{
    lemma_ink_of_one('a');
    if open.len() > 0 {
        let prev = open.drop_last();
        assert forall|i: int| 0 <= i < prev.len() implies !text::is_white(#[trigger] prev[i]) by {
            assert(prev[i] == open[i]);
        }
        lemma_ink_open(prev);
        lemma_ink_of_one(open.last());
        lemma_ink_adds_up(prev, seq![open.last()]);
        assert(prev + seq![open.last()] =~= open);
    } else {
        assert(open =~= Seq::empty());
    }
}

/// Spacing a text singly loses no character but white space.
pub proof fn law_single_spacing_keeps_ink(s: Seq<char>)
    ensures
        ink(text::single_spaced(s)) == ink(s),
{
    lemma_words_ink(Seq::empty(), s);
    assert(Seq::<char>::empty() + ink(s) =~= ink(s));
}

// ---------------------------------------------------------------------------
// Replacing

/// The first place of a pattern is replaced, and then those in what follows it.
pub proof fn law_replace_first(a: Seq<char>, p: Seq<char>, b: Seq<char>, w: Seq<char>)
    requires
        p.len() > 0,
        forall|k: int| 0 <= k < a.len() ==> !p.is_prefix_of(#[trigger] (a + p + b).skip(k)),
    ensures
        text::replace(a + p + b, p, w) == a + w + text::replace(b, p, w),
    decreases a.len(),
{
    let s = a + p + b;
    if a.len() == 0 {
        assert(s.subrange(0, p.len() as int) =~= p);
        assert(s.skip(p.len() as int) =~= b);
        assert(a + w + text::replace(b, p, w) =~= w + text::replace(b, p, w));
    } else {
        let rest = a.drop_first();
        assert(s.skip(0) =~= s);
        assert(!p.is_prefix_of(s.skip(0)));
        assert(s.drop_first() =~= rest + p + b);
        assert forall|k: int| 0 <= k < rest.len() implies !p.is_prefix_of(
            #[trigger] (rest + p + b).skip(k),
        ) by {
            assert((rest + p + b).skip(k) =~= s.skip(k + 1));
        }
        law_replace_first(rest, p, b, w);
        assert(seq![s[0]] + (rest + w + text::replace(b, p, w)) =~= a + w + text::replace(b, p, w));
    }
}

/// A text that does not hold a pattern stays as it is.
pub proof fn law_replace_nothing(s: Seq<char>, p: Seq<char>, w: Seq<char>)
    requires
        forall|k: int| 0 <= k < s.len() ==> !p.is_prefix_of(#[trigger] s.skip(k)),
    ensures
        text::replace(s, p, w) == s,
    decreases s.len(),
{
    if s.len() > 0 && p.len() > 0 {
        let rest = s.drop_first();
        assert(s.skip(0) =~= s);
        assert(!p.is_prefix_of(s.skip(0)));
        assert forall|k: int| 0 <= k < rest.len() implies !p.is_prefix_of(#[trigger] rest.skip(k)) by {
            assert(rest.skip(k) =~= s.skip(k + 1));
        }
        law_replace_nothing(rest, p, w);
        assert(seq![s[0]] + rest =~= s);
    }
}

// ---------------------------------------------------------------------------
// Numbers

/// The value of digits is ten times that of those before the last, and the last;
/// a number is written with the fewest digits that have its value.
pub proof fn law_decimal(n: nat, s: Seq<char>, c: char)
    ensures
        text::decimal_value(Seq::empty()) == 0,
        text::decimal_value(s.push(c)) == 10 * text::decimal_value(s) + (c as int - 48),
        text::decimal_value(text::decimal(n)) == n,
        text::decimal(n).len() > 0,
        forall|i: int|
            0 <= i < text::decimal(n).len() ==> '0' <= #[trigger] text::decimal(n)[i] <= '9',
        n > 0 ==> text::decimal(n)[0] != '0',
        n == 0 ==> text::decimal(n).len() == 1,
{
    assert(s.push(c).drop_last() =~= s);
    text::lemma_decimal_digits(n);
    let d = text::decimal(n);
    assert forall|i: int| 0 <= i < d.len() implies '0' <= #[trigger] d[i] <= '9' by {
        assert(text::is_digit(d[i]));
    }
    lemma_no_leading_zero(n);
}

proof fn lemma_no_leading_zero(n: nat)
    ensures
        n > 0 ==> text::decimal(n)[0] != '0',
        text::decimal(n).len() > 0,
    decreases n,
{
    if n >= 10 {
        lemma_no_leading_zero(n / 10);
    }
}

/// A number that is read is the value of the digits, behind at most one plus
/// sign; anything else, or a number that is too large, is none.
pub proof fn law_unsigned(s: Seq<char>, max: int)
    requires
        s.len() == 0 || s[0] != '+',
    ensures
        text::unsigned(s, max) is Some <==> s.len() > 0 && (forall|i: int|
            0 <= i < s.len() ==> '0' <= #[trigger] s[i] <= '9') && text::decimal_value(s) <= max,
        text::unsigned(s, max) matches Some(n) ==> n == text::decimal_value(s),
        text::unsigned(seq!['+'] + s, max) == text::unsigned(s, max),
{
    assert((seq!['+'] + s).drop_first() =~= s);
    if forall|i: int| 0 <= i < s.len() ==> '0' <= #[trigger] s[i] <= '9' {
        assert(text::all_digits(s));
    }
    if text::all_digits(s) {
        assert forall|i: int| 0 <= i < s.len() implies '0' <= #[trigger] s[i] <= '9' by {
            assert(text::is_digit(s[i]));
        }
    }
}

} // verus!
