//! Rendering one command line: `::command[ key=value,...]::payload` and a
//! line feed.

use vstd::prelude::*;
use crate::escape::{escape_data, escape_property, escaped_data, escaped_property};
use crate::text::{push_char, push_text};

verus! {

/// One `key=value` entry of a property list, the value escaped.
pub open spec fn argument(key: Seq<char>, value: Seq<char>) -> Seq<char> {
    key + seq!['='] + escaped_property(value)
}

/// The entries joined with commas, in their order.
pub open spec fn joined(items: Seq<Seq<char>>) -> Seq<char>
    decreases items.len(),
{
    if items.len() == 0 {
        seq![]
    } else if items.len() == 1 {
        items[0]
    } else {
        joined(items.drop_last()) + seq![','] + items.last()
    }
}

/// The views of the given key/value pairs.
pub open spec fn pairs_view(props: Seq<(&str, &str)>) -> Seq<(Seq<char>, Seq<char>)> {
    props.map_values(|p: (&str, &str)| (p.0@, p.1@))
}

/// The rendered property list of the given key/value pairs.
pub open spec fn property_list(props: Seq<(Seq<char>, Seq<char>)>) -> Seq<char> {
    joined(props.map_values(|p: (Seq<char>, Seq<char>)| argument(p.0, p.1)))
}

/// The whole line: `::`, the command, a space and the property list when
/// there are properties, `::`, the escaped payload and a line feed.
pub open spec fn encoded(
    command: Seq<char>,
    props: Seq<(Seq<char>, Seq<char>)>,
    payload: Seq<char>,
) -> Seq<char> {
    seq![':', ':'] + command + (if props.len() == 0 {
        seq![]
    } else {
        seq![' '] + property_list(props)
    }) + seq![':', ':'] + escaped_data(payload) + seq!['\n']
}

/// The line of a command without properties.
pub open spec fn command_line(command: Seq<char>, payload: Seq<char>) -> Seq<char> {
    encoded(command, seq![], payload)
}

/// The line of a command with the single property `name=<key>`.
pub open spec fn named_line(command: Seq<char>, key: Seq<char>, value: Seq<char>) -> Seq<char> {
    encoded(command, seq![("name"@, key)], value)
}

/// Renders `key=value` with the value escaped as a property.
pub fn cmd_arg(key: &str, value: &str) -> (r: String)
    ensures
        r@ == argument(key@, value@),
{
    let mut out = String::new();
    push_text(&mut out, key);
    push_char(&mut out, '=');
    let escaped = escape_property(value);
    push_text(&mut out, escaped.as_str());
    out
}

/// Renders a command line from a command name, its properties in order, and
/// a payload.
pub fn encode(command: &str, properties: &[(&str, &str)], payload: &str) -> (r: String)
    ensures
        r@ == encoded(command@, pairs_view(properties@), payload@),
{
    let ghost props = pairs_view(properties@);
    let ghost args = props.map_values(|p: (Seq<char>, Seq<char>)| argument(p.0, p.1));
    let mut out = String::new();
    push_char(&mut out, ':');
    push_char(&mut out, ':');
    push_text(&mut out, command);
    let ghost head = out@;
    if properties.len() > 0 {
        push_char(&mut out, ' ');
        let ghost start = out@;
        let mut i: usize = 0;
        while i < properties.len()
            invariant
                0 <= i <= properties@.len(),
                props == pairs_view(properties@),
                args == props.map_values(|p: (Seq<char>, Seq<char>)| argument(p.0, p.1)),
                start == head + seq![' '],
                out@ == start + joined(args.take(i as int)),
            decreases properties@.len() - i,
        {
            let (key, value) = properties[i];
            let ghost before = out@;
            if i > 0 {
                push_char(&mut out, ',');
            }
            let arg = cmd_arg(key, value);
            push_text(&mut out, arg.as_str());
            proof {
                assert(args.take(i + 1).drop_last() =~= args.take(i as int));
                assert(args[i as int] == arg@);
                if i == 0 {
                    assert(joined(args.take(1)) == arg@);
                }
                assert(out@ =~= start + joined(args.take(i + 1)));
            }
            i = i + 1;
        }
        assert(args.take(properties@.len() as int) =~= args);
    }
    push_char(&mut out, ':');
    push_char(&mut out, ':');
    let data = escape_data(payload);
    push_text(&mut out, data.as_str());
    push_char(&mut out, '\n');
    assert(out@ =~= encoded(command@, props, payload@));
    out
}

} // verus!
