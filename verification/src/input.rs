//! The client's reading of a line typed by its user.

use vstd::prelude::*;
use crate::names::str_eq;
use crate::protocol::{Message, MessageView};

verus! {

/// Whether `s` begins with `p`.
pub open spec fn starts_with(s: Seq<char>, p: Seq<char>) -> bool {
    p.len() <= s.len() && s.subrange(0, p.len() as int) == p
}

/// Whether position `k` holds the first space of `s`.
pub open spec fn first_space(s: Seq<char>, k: int) -> bool {
    0 <= k < s.len() && s[k] == ' ' && forall|j: int| 0 <= j < k ==> s[j] != ' '
}

/// The message for a typed line: `/nick <name>` asks for a name, `/whisper
/// <name> <text>` sends `<text>` to `<name>`, anything else is said. A
/// `/whisper` line without a space after the name has no message.
pub open spec fn parsed_line(line: Seq<char>) -> Option<MessageView> {
    let nick = "/nick "@;
    let whisper = "/whisper "@;
    if starts_with(line, nick) {
        Some(MessageView::Username(line.subrange(nick.len() as int, line.len() as int)))
    } else if starts_with(line, whisper) {
        let rest = line.subrange(whisper.len() as int, line.len() as int);
        if exists|k: int| first_space(rest, k) {
            let k = choose|k: int| first_space(rest, k);
            Some(MessageView::Send(rest.subrange(0, k), rest.subrange(k + 1, rest.len() as int)))
        } else {
            None
        }
    } else {
        Some(MessageView::Say(line))
    }
}

/// The first space of `s` is unique.
proof fn lemma_first_space_unique(s: Seq<char>, a: int, b: int)
    requires
        first_space(s, a),
        first_space(s, b),
    ensures
        a == b,
{
    if a < b {
        assert(s[a] != ' ');
    } else if b < a {
        assert(s[b] != ' ');
    }
}

/// Whether `s` begins with `p`.
fn has_prefix(s: &str, p: &str) -> (r: bool)
    ensures
        r == starts_with(s@, p@),
{
    let n = s.unicode_len();
    let m = p.unicode_len();
    if m > n {
        return false;
    }
    let head = s.substring_char(0, m);
    str_eq(head, p)
}

/// The message for a line typed by the user; none for a `/whisper` line that
/// lacks the text.
pub fn parse_input(line: &str) -> (r: Option<Message>)
    ensures
        match r {
            Some(m) => parsed_line(line@) == Some(m@),
            None => parsed_line(line@) is None,
        },
{
    proof {
        reveal_strlit("/nick ");
        reveal_strlit("/whisper ");
    }
    let n = line.unicode_len();
    if has_prefix(line, "/nick ") {
        let name = line.substring_char(6, n);
        return Some(Message::Username(String::from_str(name)));
    }
    if has_prefix(line, "/whisper ") {
        let rest = line.substring_char(9, n);
        let len = rest.unicode_len();
        let mut k: usize = 0;
        while k < len && rest.get_char(k) != ' '
            invariant
                len == rest@.len(),
                k <= len,
                forall|j: int| 0 <= j < k ==> rest@[j] != ' ',
            decreases len - k,
        {
            k = k + 1;
        }
        if k == len {
            proof {
                assert forall|j: int| !first_space(rest@, j) by {
                    if 0 <= j < rest@.len() { assert(rest@[j] != ' '); }
                }
            }
            return None;
        }
        proof {
            assert(first_space(rest@, k as int));
            let c = choose|c: int| first_space(rest@, c);
            lemma_first_space_unique(rest@, c, k as int);
        }
        let to = rest.substring_char(0, k);
        let text = rest.substring_char(k + 1, len);
        return Some(Message::Send(String::from_str(to), String::from_str(text)));
    }
    Some(Message::Say(String::from_str(line)))
}

} // verus!
