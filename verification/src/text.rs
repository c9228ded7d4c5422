//! Text rules of the relay: decimal rendering of ids, default display names,
//! the welcome line, chat-line rendering, and the nickname command.

use vstd::prelude::*;
use vstd::string::StrSliceExecFns;
use vstd::string::StringExecFns;

verus! {

/// ASCII whitespace, as trimmed from the argument of a nickname command.
pub open spec fn is_space_char(c: char) -> bool {
    c == ' ' || c == '\t' || c == '\r' || c == '\n'
}

/// Executable form of [`is_space_char`].
pub fn is_space(c: char) -> (r: bool)
    ensures
        r == is_space_char(c),
{
    c == ' ' || c == '\t' || c == '\r' || c == '\n'
}

/// The decimal digit `d` as a character.
pub open spec fn digit_char(d: nat) -> char
    recommends
        d < 10,
{
    if d == 0 {
        '0'
    } else if d == 1 {
        '1'
    } else if d == 2 {
        '2'
    } else if d == 3 {
        '3'
    } else if d == 4 {
        '4'
    } else if d == 5 {
        '5'
    } else if d == 6 {
        '6'
    } else if d == 7 {
        '7'
    } else if d == 8 {
        '8'
    } else {
        '9'
    }
}

/// The usual decimal rendering of `n`, most significant digit first,
/// without leading zeros (except for `n == 0` itself).
pub open spec fn dec_digits(n: nat) -> Seq<char>
    decreases n,
{
    if n < 10 {
        seq![digit_char(n)]
    } else {
        dec_digits(n / 10) + seq![digit_char(n % 10)]
    }
}

fn digit_str(d: u64) -> (s: &'static str)
    requires
        d < 10,
    ensures
        s@ == seq![digit_char(d as nat)],
{
    if d == 0 {
        proof {
            reveal_strlit("0");
            assert("0"@ =~= seq![digit_char(0)]);
        }
        "0"
    } else if d == 1 {
        proof {
            reveal_strlit("1");
            assert("1"@ =~= seq![digit_char(1)]);
        }
        "1"
    } else if d == 2 {
        proof {
            reveal_strlit("2");
            assert("2"@ =~= seq![digit_char(2)]);
        }
        "2"
    } else if d == 3 {
        proof {
            reveal_strlit("3");
            assert("3"@ =~= seq![digit_char(3)]);
        }
        "3"
    } else if d == 4 {
        proof {
            reveal_strlit("4");
            assert("4"@ =~= seq![digit_char(4)]);
        }
        "4"
    } else if d == 5 {
        proof {
            reveal_strlit("5");
            assert("5"@ =~= seq![digit_char(5)]);
        }
        "5"
    } else if d == 6 {
        proof {
            reveal_strlit("6");
            assert("6"@ =~= seq![digit_char(6)]);
        }
        "6"
    } else if d == 7 {
        proof {
            reveal_strlit("7");
            assert("7"@ =~= seq![digit_char(7)]);
        }
        "7"
    } else if d == 8 {
        proof {
            reveal_strlit("8");
            assert("8"@ =~= seq![digit_char(8)]);
        }
        "8"
    } else {
        proof {
            reveal_strlit("9");
            assert("9"@ =~= seq![digit_char(9)]);
        }
        "9"
    }
}

/// Renders `n` in decimal.
pub fn u64_to_string(n: u64) -> (s: String)
    ensures
        s@ == dec_digits(n as nat),
    decreases n,
{
    if n < 10 {
        String::from_str(digit_str(n))
    } else {
        let prefix = u64_to_string(n / 10);
        let s = prefix.concat(digit_str(n % 10));
        proof {
            assert(s@ =~= dec_digits(n as nat));
        }
        s
    }
}

/// The display name a session starts with: `user:<id>`.
pub open spec fn default_name(id: nat) -> Seq<char> {
    "user:"@ + dec_digits(id)
}

/// Builds the default display name for the session with identifier `id`.
pub fn make_default_name(id: u64) -> (s: String)
    ensures
        s@ == default_name(id as nat),
{
    String::from_str("user:").concat(u64_to_string(id).as_str())
}

/// The line sent to a client right after its connection is accepted.
pub open spec fn welcome_text(id: nat) -> Seq<char> {
    "Welcome! Your ID is "@ + dec_digits(id) + ". Use '/nick NAME' to set a nickname.\n"@
}

/// Builds the welcome line for the session with identifier `id`.
pub fn welcome_message(id: u64) -> (s: String)
    ensures
        s@ == welcome_text(id as nat),
{
    String::from_str("Welcome! Your ID is ").concat(u64_to_string(id).as_str()).concat(
        ". Use '/nick NAME' to set a nickname.\n",
    )
}

/// How a chat line is rendered before it is broadcast: the sender's display
/// name, then `"> "`, then the raw line exactly as received (its line
/// terminator included).
pub open spec fn rendered_text(name: Seq<char>, line: Seq<char>) -> Seq<char> {
    name + "> "@ + line
}

/// Renders one chat line for broadcast.
pub fn render_message(name: &str, line: &str) -> (s: String)
    ensures
        s@ == rendered_text(name@, line@),
{
    name.to_owned().concat("> ").concat(line)
}

/// The six characters that open a nickname command.
pub open spec fn nick_prefix() -> Seq<char> {
    seq!['/', 'n', 'i', 'c', 'k', ' ']
}

/// Whether a line is a nickname command: it begins with the literal
/// `/nick ` (case-sensitive, exactly one space).
pub open spec fn is_nick_line(line: Seq<char>) -> bool {
    line.len() >= 6 && line.subrange(0, 6) == nick_prefix()
}

/// Decides whether `line` is a nickname command.
pub fn line_is_nick_command(line: &str) -> (r: bool)
    ensures
        r == is_nick_line(line@),
{
    let len = line.unicode_len();
    if len < 6 {
        return false;
    }
    let r = line.get_char(0) == '/' && line.get_char(1) == 'n' && line.get_char(2) == 'i'
        && line.get_char(3) == 'c' && line.get_char(4) == 'k' && line.get_char(5) == ' ';
    proof {
        let sub = line@.subrange(0, 6);
        if r {
            assert(sub =~= nick_prefix());
        } else {
            if sub == nick_prefix() {
                assert(line@[0] == sub[0]);
                assert(line@[1] == sub[1]);
                assert(line@[2] == sub[2]);
                assert(line@[3] == sub[3]);
                assert(line@[4] == sub[4]);
                assert(line@[5] == sub[5]);
                assert(false);
            }
        }
    }
    r
}

/// What is left of `s` once every leading whitespace character is dropped.
pub open spec fn trim_start_spec(s: Seq<char>) -> Seq<char>
    decreases s.len(),
{
    if s.len() > 0 && is_space_char(s[0]) {
        trim_start_spec(s.drop_first())
    } else {
        s
    }
}

/// What is left of `s` once every trailing whitespace character is dropped.
pub open spec fn trim_end_spec(s: Seq<char>) -> Seq<char>
    decreases s.len(),
{
    if s.len() > 0 && is_space_char(s.last()) {
        trim_end_spec(s.drop_last())
    } else {
        s
    }
}

/// `s` without its leading and trailing whitespace.
pub open spec fn trim_spec(s: Seq<char>) -> Seq<char> {
    trim_end_spec(trim_start_spec(s))
}

proof fn lemma_trim_start_at(s: Seq<char>, i: int)
    requires
        0 <= i <= s.len(),
        forall|k: int| 0 <= k < i ==> is_space_char(s[k]),
        i < s.len() ==> !is_space_char(s[i]),
    ensures
        trim_start_spec(s) == s.subrange(i, s.len() as int),
    decreases i,
{
    if i == 0 {
        assert(s.subrange(0, s.len() as int) =~= s);
    } else {
        let t = s.drop_first();
        assert(t =~= s.subrange(1, s.len() as int));
        assert(forall|k: int| 0 <= k < i - 1 ==> is_space_char(#[trigger] t[k]));
        lemma_trim_start_at(t, i - 1);
        assert(t.subrange(i - 1, t.len() as int) =~= s.subrange(i, s.len() as int));
    }
}

proof fn lemma_trim_end_at(s: Seq<char>, j: int)
    requires
        0 <= j <= s.len(),
        forall|k: int| j <= k < s.len() ==> is_space_char(s[k]),
        j > 0 ==> !is_space_char(s[j - 1]),
    ensures
        trim_end_spec(s) == s.subrange(0, j),
    decreases s.len() - j,
{
    if j == s.len() {
        assert(s.subrange(0, j) =~= s);
    } else {
        let t = s.drop_last();
        assert(t =~= s.subrange(0, s.len() - 1));
        assert(forall|k: int| j <= k < t.len() ==> is_space_char(#[trigger] t[k]));
        lemma_trim_end_at(t, j);
        assert(t.subrange(0, j) =~= s.subrange(0, j));
    }
}

/// Drops leading and trailing whitespace from `s`.
pub fn trim(s: &str) -> (r: &str)
    ensures
        r@ == trim_spec(s@),
{
    let len = s.unicode_len();
    let mut i: usize = 0;
    while i < len && is_space(s.get_char(i))
        invariant
            i <= len,
            len == s@.len(),
            forall|k: int| 0 <= k < i ==> is_space_char(s@[k]),
        decreases len - i,
    {
        i = i + 1;
    }
    proof {
        lemma_trim_start_at(s@, i as int);
    }
    let t = s.substring_char(i, len);
    let tlen = t.unicode_len();
    let mut j: usize = tlen;
    while j > 0 && is_space(t.get_char(j - 1))
        invariant
            j <= tlen,
            tlen == t@.len(),
            forall|k: int| j <= k < tlen ==> is_space_char(t@[k]),
        decreases j,
    {
        j = j - 1;
    }
    proof {
        lemma_trim_end_at(t@, j as int);
    }
    t.substring_char(0, j)
}

/// The nickname asked for by a nickname command: everything after the
/// `/nick ` prefix, trimmed of surrounding whitespace (the trailing line
/// terminator included).
pub open spec fn nick_argument(line: Seq<char>) -> Seq<char>
    recommends
        is_nick_line(line),
{
    trim_spec(line.subrange(6, line.len() as int))
}

/// Extracts the nickname from a nickname command line.
pub fn parse_nick(line: &str) -> (r: String)
    requires
        is_nick_line(line@),
    ensures
        r@ == nick_argument(line@),
{
    let rest = line.substring_char(6, line.unicode_len());
    String::from_str(trim(rest))
}

} // verus!
