//! What the agent tells the model about the system it runs on, and the
//! system message that opens every conversation.

use vstd::prelude::*;
use crate::gemini::SYSTEM_PROMPT;
use crate::text::{
    chars_of, occurs_at, occurs_at_index, string_of_range,
};

verus! {

/// The system context: the time, the user, the shell, the working
/// directory and the operating system, one per line.
pub open spec fn system_context_spec(
    time: Seq<char>,
    user: Seq<char>,
    shell: Seq<char>,
    cwd: Seq<char>,
    os_name: Seq<char>,
    os_version: Seq<char>,
) -> Seq<char> {
    "SYSTEM CONTEXT:\n- Current time: "@ + time + "\n- User: "@ + user + "\n- Shell: "@ + shell
        + "\n- Working directory: "@ + cwd + "\n- OS: "@ + os_name + " "@ + os_version
}

/// The system context for the given facts.
pub fn system_context(
    time: &str,
    user: &str,
    shell: &str,
    cwd: &str,
    os_name: &str,
    os_version: &str,
) -> (context: String)
    ensures
        context@ == system_context_spec(time@, user@, shell@, cwd@, os_name@, os_version@),
{
    let mut context = String::from_str("SYSTEM CONTEXT:\n- Current time: ");
    context.append(time);
    context.append("\n- User: ");
    context.append(user);
    context.append("\n- Shell: ");
    context.append(shell);
    context.append("\n- Working directory: ");
    context.append(cwd);
    context.append("\n- OS: ");
    context.append(os_name);
    context.append(" ");
    context.append(os_version);
    context
}

/// What the system message says of the Python tool.
pub open spec fn python_section() -> Seq<char> {
    "\n\n5. Run Python code:\n   {\"tool\": \"run_python\", \"code\": \"<python code>\"}\n\nEXAMPLE:\n- \"calculate 2^100\" → {\"tool\": \"run_python\", \"code\": \"print(2**100)\"}\n\n"@
}

/// The system message: the instructions on the tools, with the Python
/// tool where an interpreter was found, and the system context.
pub open spec fn system_prompt_spec(python_available: bool, context: Seq<char>) -> Seq<char> {
    if python_available {
        SYSTEM_PROMPT@ + python_section() + context
    } else {
        SYSTEM_PROMPT@ + "\n\n"@ + context
    }
}

/// The system message that opens a conversation.
pub fn system_prompt(python_available: bool, context: &str) -> (prompt: String)
    ensures
        prompt@ == system_prompt_spec(python_available, context@),
{
    let mut prompt = String::from_str(SYSTEM_PROMPT);
    if python_available {
        prompt.append(
            "\n\n5. Run Python code:\n   {\"tool\": \"run_python\", \"code\": \"<python code>\"}\n\nEXAMPLE:\n- \"calculate 2^100\" → {\"tool\": \"run_python\", \"code\": \"print(2**100)\"}\n\n",
        );
    } else {
        prompt.append("\n\n");
    }
    prompt.append(context);
    prompt
}

/// The number of times `prefix` stands at the start of `text`, one after
/// the other.
pub open spec fn leading_repeats(text: Seq<char>, prefix: Seq<char>) -> int
    decreases text.len(),
{
    if prefix.len() > 0 && occurs_at(text, prefix, 0) {
        1 + leading_repeats(text.skip(prefix.len() as int), prefix)
    } else {
        0
    }
}

/// The number of leading characters of `text` that are `c`.
pub open spec fn leading_count(text: Seq<char>, c: char) -> int
    decreases text.len(),
{
    if text.len() > 0 && text[0] == c {
        1 + leading_count(text.drop_first(), c)
    } else {
        0
    }
}

/// The number of trailing characters of `text` that are `c`.
pub open spec fn trailing_count(text: Seq<char>, c: char) -> int
    decreases text.len(),
{
    if text.len() > 0 && text.last() == c {
        1 + trailing_count(text.drop_last(), c)
    } else {
        0
    }
}

/// `text` without the characters `c` at its start and at its end.
pub open spec fn without_edges(text: Seq<char>, c: char) -> Seq<char> {
    let rest = text.skip(leading_count(text, c));
    rest.take(rest.len() - trailing_count(rest, c))
}

/// The name that a line of an `os-release` file gives: what follows
/// `PRETTY_NAME=`, written any number of times, without the quotes around
/// it.
pub open spec fn pretty_name_of(line: Seq<char>) -> Seq<char> {
    let name = "PRETTY_NAME="@;
    without_edges(line.skip(leading_repeats(line, name) * name.len()), '"')
}

/// The name of the system according to the lines of an `os-release`
/// file: that of the first line that starts with `PRETTY_NAME=`.
pub open spec fn os_pretty_name_spec(lines: Seq<Seq<char>>) -> Option<Seq<char>>
    decreases lines.len(),
{
    if lines.len() == 0 {
        None
    } else if occurs_at(lines[0], "PRETTY_NAME="@, 0) {
        Some(pretty_name_of(lines[0]))
    } else {
        os_pretty_name_spec(lines.drop_first())
    }
}

/// The bounds of `v` without the characters `c` at its start and end.
fn edge_bounds(v: &[char], c: char) -> (bounds: (usize, usize))
    ensures
        bounds.0 <= bounds.1 <= v.len(),
        v@.subrange(bounds.0 as int, bounds.1 as int) == without_edges(v@, c),
{
    let mut b: usize = 0;
    proof {
        assert(v@.skip(0) == v@);
    }
    while b < v.len() && v[b] == c
        invariant
            b <= v.len(),
            leading_count(v@, c) == b + leading_count(v@.skip(b as int), c),
        decreases v.len() - b,
    {
        assert(v@.skip(b as int).drop_first() == v@.skip(b + 1));
        b += 1;
    }
    let ghost rest = v@.skip(b as int);
    let mut e: usize = v.len();
    proof {
        assert(rest.take(rest.len() as int) == rest);
        if b < v.len() {
            assert(rest[0] == v@[b as int]);
        }
    }
    while e > b && v[e - 1] == c
        invariant
            b <= e <= v.len(),
            rest == v@.skip(b as int),
            trailing_count(rest, c) == (v.len() - e) + trailing_count(rest.take(e - b), c),
        decreases e,
    {
        assert(rest.take(e - b).last() == v@[e - 1]);
        assert(rest.take(e - b).drop_last() == rest.take(e - b - 1));
        e -= 1;
    }
    proof {
        if e > b {
            assert(rest.take(e - b).last() == v@[e - 1]);
        }
        assert(rest.take(rest.len() - trailing_count(rest, c)) == v@.subrange(b as int, e as int));
    }
    (b, e)
}

/// The name of the system according to the text of an `os-release` file,
/// taken line by line, as `os_pretty_name_spec` defines it.
pub fn os_pretty_name(lines: &Vec<String>) -> (name: Option<String>)
    ensures
        match name {
            Some(n) => os_pretty_name_spec(crate::text::texts(lines@)) == Some(n@),
            None => os_pretty_name_spec(crate::text::texts(lines@)) is None,
        },
{
    let ghost all = crate::text::texts(lines@);
    let key = chars_of("PRETTY_NAME=");
    let mut i: usize = 0;
    proof {
        assert(all.skip(0) == all);
    }
    while i < lines.len()
        invariant
            i <= lines.len(),
            all == crate::text::texts(lines@),
            key@ == "PRETTY_NAME="@,
            os_pretty_name_spec(all) == os_pretty_name_spec(all.skip(i as int)),
        decreases lines.len() - i,
    {
        proof {
            assert(all.skip(i as int)[0] == lines@[i as int]@);
            assert(all.skip(i as int).drop_first() == all.skip(i + 1));
        }
        let line = chars_of(lines[i].as_str());
        if occurs_at_index(line.as_slice(), key.as_slice(), 0) {
            let mut start: usize = 0;
            proof {
                reveal_strlit("PRETTY_NAME=");
                assert(line@.skip(0) == line@);
            }
            while occurs_at_index(line.as_slice(), key.as_slice(), start)
                invariant
                    start <= line.len(),
                    key@ == "PRETTY_NAME="@,
                    key@.len() == 12,
                    leading_repeats(line@, key@) * 12 == start + leading_repeats(
                        line@.skip(start as int),
                        key@,
                    ) * 12,
                decreases line.len() - start,
            {
                proof {
                    let rest = line@.skip(start as int);
                    assert(rest.subrange(0, 12) == line@.subrange(start as int, start + 12));
                    assert(occurs_at(rest, key@, 0));
                    assert(rest.skip(12) == line@.skip(start + 12));
                }
                start += 12;
            }
            proof {
                let rest = line@.skip(start as int);
                if occurs_at(rest, key@, 0) {
                    assert(rest.subrange(0, 12) == line@.subrange(start as int, start + 12));
                }
                assert(leading_repeats(rest, key@) == 0);
            }
            let all_chars = line.as_slice();
            let tail = &all_chars[start..line.len()];
            proof {
                assert(tail@ == line@.skip(start as int));
            }
            let (b, e) = edge_bounds(tail, '"');
            return Some(string_of_range(tail, b, e));
        }
        i += 1;
    }
    None
}

} // verus!
