use vstd::prelude::*;
use vstd::string::*;

verus! {

/// A line typed into the chat box.
pub enum Input<'a> {
    /// `/join channel` or `/enter channel`.
    Join { channel: &'a str },
    /// `/part channel` or `/leave channel`.
    Part { channel: &'a str },
    /// Anything that does not start with `/`: a chat message.
    Send { data: &'a str },
    /// A known command without its argument.
    Usage { cmd: &'static str, message: &'static str },
    /// A `/` command that is not known.
    Unknown { data: &'a str },
}

/// `p` is the first space of `t`.
pub open spec fn first_space(t: Seq<char>, p: int) -> bool {
    0 <= p < t.len() && t[p] == ' ' && forall|q: int| 0 <= q < p ==> t[q] != ' '
}

/// The command word of `t`, whose first space is at `p`, is one of `a`, `b`.
pub open spec fn head_is(t: Seq<char>, p: int, a: Seq<char>, b: Seq<char>) -> bool {
    t.subrange(0, p) == a || t.subrange(0, p) == b
}

/// `r` is what `line` parses as.
pub open spec fn parses_as(line: Seq<char>, r: Input) -> bool {
    if !(line.len() > 0 && line[0] == '/') {
        r is Send && r->Send_data@ == line
    } else {
        let t = line.subrange(1, line.len() as int);
        let is_join = exists|p: int| first_space(t, p) && head_is(t, p, "join"@, "enter"@);
        let is_part = exists|p: int| first_space(t, p) && head_is(t, p, "part"@, "leave"@);
        let rest = |p: int| t.subrange(p + 1, t.len() as int);
        match r {
            Input::Join { channel } => exists|p: int|
                first_space(t, p) && head_is(t, p, "join"@, "enter"@) && channel@ == rest(p) && rest(p).len() > 0,
            Input::Part { channel } => exists|p: int|
                first_space(t, p) && head_is(t, p, "part"@, "leave"@) && channel@ == rest(p) && rest(p).len() > 0,
            Input::Usage { cmd, message } => exists|p: int|
                first_space(t, p) && rest(p).len() == 0 && ((head_is(t, p, "join"@, "enter"@) && cmd@ == "/join"@
                    && message@ == "syntax: /join channel"@) || (head_is(t, p, "part"@, "leave"@) && cmd@
                    == "/part"@ && message@ == "syntax: /part channel"@)),
            Input::Unknown { data } => data@ == line && !is_join && !is_part,
            Input::Send { data } => false,
        }
    }
}

fn is_one_of(word: &str, a: &str, b: &str) -> (r: bool)
    ensures
        r == (word@ == a@ || word@ == b@),
{
    let w: String = word.to_owned();
    let x: String = a.to_owned();
    let y: String = b.to_owned();
    w == x || w == y
}

impl<'a> Input<'a> {
    /// Reads a line of the chat box: a chat message, or a `/` command.
    pub fn parse(input: &'a str) -> (r: Input<'a>)
        ensures
            parses_as(input@, r),
    {
        let n = input.unicode_len();
        if n == 0 || input.get_char(0) != '/' {
            return Input::Send { data: input };
        }
        let tail = input.substring_char(1, n);
        let m = n - 1;
        let mut p: usize = 0;
        while p < m && tail.get_char(p) != ' '
            invariant
                m == tail@.len(),
                p <= m,
                forall|q: int| 0 <= q < p ==> tail@[q] != ' ',
            decreases m - p,
        {
            p = p + 1;
        }
        let ghost t = tail@;
        if p == m {
            proof {
                assert forall|q: int| !first_space(t, q) by {
                    if first_space(t, q) {
                        assert(t[q] != ' ');
                    }
                }
            }
            return Input::Unknown { data: input };
        }
        let head = tail.substring_char(0, p);
        let rest = tail.substring_char(p + 1, m);
        let ghost pi = p as int;
        proof {
            assert(first_space(t, pi));
            assert forall|q: int| first_space(t, q) implies q == pi by {
                if q < pi {
                    assert(t[q] != ' ');
                } else if q > pi {
                    assert(t[pi] == ' ');
                }
            }
        }
        if is_one_of(head, "join", "enter") {
            if rest.unicode_len() == 0 {
                return Input::Usage { cmd: "/join", message: "syntax: /join channel" };
            }
            return Input::Join { channel: rest };
        }
        if is_one_of(head, "part", "leave") {
            if rest.unicode_len() == 0 {
                return Input::Usage { cmd: "/part", message: "syntax: /part channel" };
            }
            return Input::Part { channel: rest };
        }
        Input::Unknown { data: input }
    }
}

} // verus!
