//! The two escaped forms of text used on a command line: "data", for the
//! payload, and "property", for a value inside the `key=value` list.

use vstd::prelude::*;
use crate::text::push_char;

verus! {

/// What one character becomes in escaped data.
pub open spec fn data_char(c: char) -> Seq<char> {
    if c == '%' {
        seq!['%', '2', '5']
    } else if c == '\r' {
        seq!['%', '0', 'D']
    } else if c == '\n' {
        seq!['%', '0', 'A']
    } else {
        seq![c]
    }
}

/// What one character becomes in an escaped property value.
pub open spec fn property_char(c: char) -> Seq<char> {
    if c == ':' {
        seq!['%', '3', 'A']
    } else if c == ',' {
        seq!['%', '2', 'C']
    } else {
        data_char(c)
    }
}

/// `s` with every character replaced by its escaped data form.
pub open spec fn escaped_data(s: Seq<char>) -> Seq<char>
    decreases s.len(),
{
    if s.len() == 0 {
        seq![]
    } else {
        escaped_data(s.drop_last()) + data_char(s.last())
    }
}

/// `s` with every character replaced by its escaped property form.
pub open spec fn escaped_property(s: Seq<char>) -> Seq<char>
    decreases s.len(),
{
    if s.len() == 0 {
        seq![]
    } else {
        escaped_property(s.drop_last()) + property_char(s.last())
    }
}

/// Escapes a payload: `%` becomes `%25`, carriage return `%0D` and line feed
/// `%0A`; every other character is kept.
pub fn escape_data(data: &str) -> (r: String)
    ensures
        r@ == escaped_data(data@),
{
    let mut out = String::new();
    for c in it: data.chars()
        invariant
            it.seq() == data@,
            out@ == escaped_data(data@.take(it.index() as int)),
    {
        let ghost i = it.index() as int;
        proof {
            assert(data@.take(i + 1).drop_last() =~= data@.take(i));
        }
        if c == '%' {
            push_char(&mut out, '%');
            push_char(&mut out, '2');
            push_char(&mut out, '5');
        } else if c == '\r' {
            push_char(&mut out, '%');
            push_char(&mut out, '0');
            push_char(&mut out, 'D');
        } else if c == '\n' {
            push_char(&mut out, '%');
            push_char(&mut out, '0');
            push_char(&mut out, 'A');
        } else {
            push_char(&mut out, c);
        }
        assert(out@ =~= escaped_data(data@.take(i + 1)));
    }
    assert(data@.take(data@.len() as int) =~= data@);
    out
}

/// Escapes a property value: first as data, then `:` becomes `%3A` and `,`
/// becomes `%2C`; every other character is kept.
pub fn escape_property(prop: &str) -> (r: String)
    ensures
        r@ == escaped_property(prop@),
{
    let mut out = String::new();
    for c in it: prop.chars()
        invariant
            it.seq() == prop@,
            out@ == escaped_property(prop@.take(it.index() as int)),
    {
        let ghost i = it.index() as int;
        proof {
            assert(prop@.take(i + 1).drop_last() =~= prop@.take(i));
        }
        if c == ':' {
            push_char(&mut out, '%');
            push_char(&mut out, '3');
            push_char(&mut out, 'A');
        } else if c == ',' {
            push_char(&mut out, '%');
            push_char(&mut out, '2');
            push_char(&mut out, 'C');
        } else if c == '%' {
            push_char(&mut out, '%');
            push_char(&mut out, '2');
            push_char(&mut out, '5');
        } else if c == '\r' {
            push_char(&mut out, '%');
            push_char(&mut out, '0');
            push_char(&mut out, 'D');
        } else if c == '\n' {
            push_char(&mut out, '%');
            push_char(&mut out, '0');
            push_char(&mut out, 'A');
        } else {
            push_char(&mut out, c);
        }
        assert(out@ =~= escaped_property(prop@.take(i + 1)));
    }
    assert(prop@.take(prop@.len() as int) =~= prop@);
    out
}

/// Text with no `%`, carriage return or line feed is its own escaped data
/// form.
pub proof fn lemma_plain_data_unchanged(s: Seq<char>)
    requires
        !s.contains('%'),
        !s.contains('\r'),
        !s.contains('\n'),
    ensures
        escaped_data(s) == s,
    decreases s.len(),
{
    if s.len() > 0 {
        assert(s.drop_last().contains('%') ==> s.contains('%'));
        assert(s.drop_last().contains('\r') ==> s.contains('\r'));
        assert(s.drop_last().contains('\n') ==> s.contains('\n'));
        lemma_plain_data_unchanged(s.drop_last());
        assert(s.contains(s.last()));
        assert(s.drop_last().push(s.last()) =~= s);
        assert(escaped_data(s.drop_last()) + data_char(s.last()) =~= s);
    }
}

/// Escaped data never holds a carriage return or a line feed, so a payload
/// cannot break its command line apart.
pub proof fn lemma_data_has_no_line_break(s: Seq<char>)
    ensures
        !escaped_data(s).contains('\r'),
        !escaped_data(s).contains('\n'),
    decreases s.len(),
{
    if s.len() > 0 {
        lemma_data_has_no_line_break(s.drop_last());
        let a = escaped_data(s.drop_last());
        let b = data_char(s.last());
        assert(escaped_data(s) == a + b);
        assert forall|c: char| c == '\r' || c == '\n' implies !(a + b).contains(c) by {
            if (a + b).contains(c) {
                let k = choose|k: int| 0 <= k < (a + b).len() && (a + b)[k] == c;
                if k < a.len() {
                    assert(a[k] == c);
                } else {
                    assert(b[k - a.len()] == c);
                }
            }
        }
    }
}

/// An escaped property value never holds a literal `:` or `,`: those
/// characters appear only as `%3A` and `%2C`, which hold neither.
pub proof fn lemma_property_has_no_delimiter(s: Seq<char>)
    ensures
        !escaped_property(s).contains(':'),
        !escaped_property(s).contains(','),
    decreases s.len(),
{
    if s.len() > 0 {
        lemma_property_has_no_delimiter(s.drop_last());
        let a = escaped_property(s.drop_last());
        let b = property_char(s.last());
        assert(escaped_property(s) == a + b);
        assert forall|c: char| c == ':' || c == ',' implies !(a + b).contains(c) by {
            if (a + b).contains(c) {
                let k = choose|k: int| 0 <= k < (a + b).len() && (a + b)[k] == c;
                if k < a.len() {
                    assert(a[k] == c);
                } else {
                    assert(b[k - a.len()] == c);
                }
            }
        }
    }
}

} // verus!
