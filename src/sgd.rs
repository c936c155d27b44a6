//! Set/get/do commands and their wire payload.

use vstd::prelude::*;
use vstd::std_specs::iter::IteratorSpec;
use vstd::utf8::{encode_utf8, is_ascii_chars, is_ascii_chars_encode_utf8};

verus! {

/// A printer command: a verb with its ordered arguments.
#[derive(Clone, PartialEq, Debug)]
pub enum SGDCommands {
    /// `! U1 getvar`
    Get { cmd: Vec<String> },
    /// `! U1 setvar`
    Setvar { cmd: Vec<String> },
    /// `! U1 do`
    Do { cmd: Vec<String> },
}

/// The text of each string, in order.
pub open spec fn views(v: Seq<String>) -> Seq<Seq<char>> {
    v.map_values(|s: String| s@)
}

/// One argument as it stands on the wire: a space, then the argument in
/// double quotes.
pub open spec fn quote_token(a: Seq<char>) -> Seq<char> {
    " \""@ + a + "\""@
}

/// The arguments as they stand on the wire: each one quoted, in order, one
/// after the other.
pub open spec fn quoted_args(args: Seq<Seq<char>>) -> Seq<char> {
    args.map_values(|a: Seq<char>| quote_token(a)).flatten()
}

/// The fixed start of every payload.
pub open spec fn payload_prefix() -> Seq<char> {
    "! U1 "@
}

/// The fixed end of every payload: a space and a carriage return.
pub open spec fn payload_postfix() -> Seq<char> {
    " \r"@
}

/// The full payload for a verb keyword and its arguments.
pub open spec fn wire_payload(verb: Seq<char>, args: Seq<Seq<char>>) -> Seq<char> {
    payload_prefix() + verb + quoted_args(args) + payload_postfix()
}

impl SGDCommands {
    /// The verb's keyword on the wire.
    pub open spec fn verb(&self) -> Seq<char> {
        match self {
            SGDCommands::Get { .. } => "getvar"@,
            SGDCommands::Setvar { .. } => "setvar"@,
            SGDCommands::Do { .. } => "do"@,
        }
    }

    /// The command's arguments, in order.
    pub open spec fn args(&self) -> Seq<Seq<char>> {
        match self {
            SGDCommands::Get { cmd } => views(cmd@),
            SGDCommands::Setvar { cmd } => views(cmd@),
            SGDCommands::Do { cmd } => views(cmd@),
        }
    }

    /// The command's payload, as text.
    pub open spec fn payload(&self) -> Seq<char> {
        wire_payload(self.verb(), self.args())
    }

    /// Turn a command into the full payload that the printer expects.
    pub fn build_cmd(&self) -> (r: String)
        ensures
            r@ == self.payload(),
    {
        let mut out = String::new();
        out.append("! U1 ");
        let args = match self {
            SGDCommands::Setvar { cmd } => {
                out.append("setvar");
                gen_args(cmd)
            },
            SGDCommands::Get { cmd } => {
                out.append("getvar");
                gen_args(cmd)
            },
            SGDCommands::Do { cmd } => {
                out.append("do");
                gen_args(cmd)
            },
        };
        out.append(args.as_str());
        out.append(" \r");
        proof {
            assert(out@ =~= self.payload());
        }
        out
    }
}

/// Each argument quoted and preceded by a space, in order.
fn gen_args(args: &Vec<String>) -> (r: String)
    ensures
        r@ == quoted_args(views(args@)),
{
    let mut arg_str = String::new();
    let mut i: usize = 0;
    while i < args.len()
        invariant
            i <= args.len(),
            arg_str@ == quoted_args(views(args@).take(i as int)),
        decreases args.len() - i,
    {
        arg_str.append(" \"");
        arg_str.append(args[i].as_str());
        arg_str.append("\"");
        proof {
            let q = |a: Seq<char>| quote_token(a);
            let before = views(args@).take(i as int).map_values(q);
            assert(views(args@).take(i + 1).map_values(q) =~= before.push(quote_token(args@[i as int]@)));
            before.lemma_flatten_push(quote_token(args@[i as int]@));
        }
        i += 1;
    }
    proof {
        assert(views(args@).take(i as int) =~= views(args@));
    }
    arg_str
}

/// Every payload starts with `! U1 ` and the verb's keyword, ends with a
/// space and a single carriage return, and holds between them exactly one
/// quoted token per argument, in the arguments' order.
pub proof fn lemma_payload_layout(c: SGDCommands)
    ensures
        c.payload().take(5 + c.verb().len() as int) == seq!['!', ' ', 'U', '1', ' '] + c.verb(),
        c.payload().last() == '\r',
        c.payload()[c.payload().len() - 2] == ' ',
        c.payload().subrange(5 + c.verb().len() as int, c.payload().len() - 2) == c.args().map_values(
            |a: Seq<char>| seq![' ', '"'] + a + seq!['"'],
        ).flatten(),
{
    reveal_strlit("! U1 ");
    reveal_strlit(" \r");
    reveal_strlit(" \"");
    reveal_strlit("\"");
    let p = c.payload();
    let head = payload_prefix() + c.verb();
    let mid = quoted_args(c.args());
    assert(p == head + mid + payload_postfix());
    assert(payload_prefix() =~= seq!['!', ' ', 'U', '1', ' ']);
    assert(payload_postfix() =~= seq![' ', '\r']);
    assert(p.take(5 + c.verb().len() as int) =~= head);
    assert(p.subrange(5 + c.verb().len() as int, p.len() - 2) =~= mid);
    assert(" \""@ =~= seq![' ', '"']);
    assert("\""@ =~= seq!['"']);
    assert forall|a: Seq<char>| quote_token(a) == seq![' ', '"'] + a + seq!['"'] by {}
    assert(c.args().map_values(|a: Seq<char>| quote_token(a)) =~= c.args().map_values(
        |a: Seq<char>| seq![' ', '"'] + a + seq!['"'],
    ));
}

/// Encoding text as UTF-8 distributes over concatenation.
proof fn lemma_encode_concat(a: Seq<char>, b: Seq<char>)
    ensures
        encode_utf8(a + b) == encode_utf8(a) + encode_utf8(b),
    decreases a.len(),
{
    if a.len() == 0 {
        assert(a + b =~= b);
        assert(encode_utf8(a) =~= Seq::<u8>::empty());
        assert(encode_utf8(a) + encode_utf8(b) =~= encode_utf8(b));
    } else {
        assert((a + b).drop_first() =~= a.drop_first() + b);
        assert((a + b)[0] == a[0]);
        lemma_encode_concat(a.drop_first(), b);
        assert(encode_utf8(a + b) =~= encode_utf8(a) + encode_utf8(b));
    }
}

/// The same layout in bytes, as the payload goes on the wire: it starts
/// with the bytes of `! U1 ` and ends with a space (32) and a single
/// carriage return (13).
pub proof fn lemma_payload_bytes(c: SGDCommands)
    ensures
        encode_utf8(c.payload()).take(5) == seq![33u8, 32u8, 85u8, 49u8, 32u8],
        encode_utf8(c.payload()).last() == 13u8,
        encode_utf8(c.payload())[encode_utf8(c.payload()).len() - 2] == 32u8,
{
    reveal_strlit("! U1 ");
    reveal_strlit(" \r");
    let pre = payload_prefix();
    let rest = c.verb() + quoted_args(c.args());
    let post = payload_postfix();
    assert(pre =~= seq!['!', ' ', 'U', '1', ' ']);
    assert(post =~= seq![' ', '\r']);
    assert(c.payload() =~= pre + (rest + post));
    assert(is_ascii_chars(pre));
    assert(is_ascii_chars(post));
    is_ascii_chars_encode_utf8(pre);
    is_ascii_chars_encode_utf8(post);
    lemma_encode_concat(pre, rest + post);
    lemma_encode_concat(rest, post);
    let bytes = encode_utf8(c.payload());
    assert(bytes == encode_utf8(pre) + (encode_utf8(rest) + encode_utf8(post)));
    assert(encode_utf8(pre) =~= seq![33u8, 32u8, 85u8, 49u8, 32u8]);
    assert(encode_utf8(post) =~= seq![32u8, 13u8]);
    assert(bytes.take(5) =~= seq![33u8, 32u8, 85u8, 49u8, 32u8]);
}

/// Number of times `c` occurs in `s`.
pub open spec fn char_count(s: Seq<char>, c: char) -> nat
    decreases s.len(),
{
    if s.len() == 0 {
        0
    } else {
        char_count(s.drop_last(), c) + if s.last() == c {
            1nat
        } else {
            0nat
        }
    }
}

proof fn lemma_char_count_concat(a: Seq<char>, b: Seq<char>, c: char)
    ensures
        char_count(a + b, c) == char_count(a, c) + char_count(b, c),
    decreases b.len(),
{
    if b.len() == 0 {
        assert(a + b =~= a);
    } else {
        assert((a + b).drop_last() =~= a + b.drop_last());
        lemma_char_count_concat(a, b.drop_last(), c);
    }
}

proof fn lemma_char_count_absent(s: Seq<char>, c: char)
    requires
        !s.contains(c),
    ensures
        char_count(s, c) == 0,
    decreases s.len(),
{
    if s.len() > 0 {
        assert(!s.drop_last().contains(c)) by {
            if s.drop_last().contains(c) {
                let k = choose|k: int| 0 <= k < s.drop_last().len() && s.drop_last()[k] == c;
                assert(s[k] == c);
            }
        }
        assert(s[s.len() - 1] == s.last());
        lemma_char_count_absent(s.drop_last(), c);
    }
}

/// With no double quote inside any argument, the payload holds exactly two
/// double quotes per argument: the ones that enclose it.
pub proof fn lemma_payload_quote_count(c: SGDCommands)
    requires
        forall|i: int| 0 <= i < c.args().len() ==> !(#[trigger] c.args()[i]).contains('"'),
    ensures
        char_count(c.payload(), '"') == 2 * c.args().len(),
{
    reveal_strlit("! U1 ");
    reveal_strlit(" \r");
    reveal_strlit(" \"");
    reveal_strlit("\"");
    reveal_strlit("getvar");
    reveal_strlit("setvar");
    reveal_strlit("do");
    let args = c.args();
    lemma_quoted_args_quote_count(args);
    let pre = payload_prefix();
    let post = payload_postfix();
    assert(!pre.contains('"')) by {
        assert(pre =~= seq!['!', ' ', 'U', '1', ' ']);
    }
    assert(!post.contains('"')) by {
        assert(post =~= seq![' ', '\r']);
    }
    assert(!c.verb().contains('"')) by {
        assert("getvar"@ =~= seq!['g', 'e', 't', 'v', 'a', 'r']);
        assert("setvar"@ =~= seq!['s', 'e', 't', 'v', 'a', 'r']);
        assert("do"@ =~= seq!['d', 'o']);
    }
    lemma_char_count_absent(pre, '"');
    lemma_char_count_absent(post, '"');
    lemma_char_count_absent(c.verb(), '"');
    lemma_char_count_concat(pre, c.verb(), '"');
    lemma_char_count_concat(pre + c.verb(), quoted_args(args), '"');
    lemma_char_count_concat(pre + c.verb() + quoted_args(args), post, '"');
}

proof fn lemma_quoted_args_quote_count(args: Seq<Seq<char>>)
    requires
        forall|i: int| 0 <= i < args.len() ==> !(#[trigger] args[i]).contains('"'),
    ensures
        char_count(quoted_args(args), '"') == 2 * args.len(),
    decreases args.len(),
{
    reveal_strlit(" \"");
    reveal_strlit("\"");
    let q = |a: Seq<char>| quote_token(a);
    if args.len() == 0 {
        assert(quoted_args(args) =~= Seq::<char>::empty());
    } else {
        let init = args.drop_last();
        let a = args.last();
        assert(forall|i: int| 0 <= i < init.len() ==> init[i] == args[i]);
        lemma_quoted_args_quote_count(init);
        assert(args.map_values(q) =~= init.map_values(q).push(quote_token(a)));
        init.map_values(q).lemma_flatten_push(quote_token(a));
        assert(quoted_args(args) == quoted_args(init) + quote_token(a));
        assert(!a.contains('"')) by {
            assert(args[args.len() - 1] == a);
        }
        lemma_char_count_absent(a, '"');
        let open_q = " \""@;
        let close_q = "\""@;
        assert(open_q =~= seq![' ', '"']);
        assert(close_q =~= seq!['"']);
        assert(char_count(open_q, '"') == 1) by {
            reveal_with_fuel(char_count, 3);
            assert(open_q.drop_last() =~= seq![' ']);
            assert(open_q.drop_last().drop_last() =~= Seq::<char>::empty());
        }
        assert(char_count(close_q, '"') == 1) by {
            reveal_with_fuel(char_count, 2);
            assert(close_q.drop_last() =~= Seq::<char>::empty());
        }
        lemma_char_count_concat(open_q, a, '"');
        lemma_char_count_concat(open_q + a, close_q, '"');
        lemma_char_count_concat(quoted_args(init), quote_token(a), '"');
    }
}

/// Building is a function of the command alone: two commands with the same
/// verb and the same arguments give byte for byte the same payload.
pub proof fn lemma_build_deterministic(a: SGDCommands, b: SGDCommands)
    requires
        a.verb() == b.verb(),
        a.args() == b.args(),
    ensures
        encode_utf8(a.payload()) == encode_utf8(b.payload()),
{
}

/// Why a line of text could not be read as a command.
#[derive(PartialEq, Eq, Debug, Clone, Copy, Structural)]
pub enum SgdParseError {
    /// Fewer than three words: a verb and at least two arguments are needed.
    Incomplete,
    /// The first word is not `getvar`, `setvar` or `do`.
    UnknownVerb,
}

/// The characters that separate words: space, tab, newline, form feed and
/// carriage return.
pub open spec fn is_ascii_ws(c: char) -> bool {
    c == ' ' || c == '\t' || c == '\n' || c == '\x0C' || c == '\r'
}

/// Reading `s` from the left: the words completed so far, and the word still
/// being read at its end.
pub open spec fn scan_words(s: Seq<char>) -> (Seq<Seq<char>>, Seq<char>)
    decreases s.len(),
{
    if s.len() == 0 {
        (Seq::empty(), Seq::empty())
    } else {
        let (done, cur) = scan_words(s.drop_last());
        if is_ascii_ws(s.last()) {
            if cur.len() > 0 {
                (done.push(cur), Seq::empty())
            } else {
                (done, Seq::empty())
            }
        } else {
            (done, cur.push(s.last()))
        }
    }
}

/// The maximal runs of non-whitespace characters of `s`, in order.
pub open spec fn words(s: Seq<char>) -> Seq<Seq<char>> {
    let (done, cur) = scan_words(s);
    if cur.len() > 0 {
        done.push(cur)
    } else {
        done
    }
}

/// Whether `w` is the keyword of a verb.
pub open spec fn is_verb(w: Seq<char>) -> bool {
    w == "getvar"@ || w == "setvar"@ || w == "do"@
}

fn is_ws(c: char) -> (r: bool)
    ensures
        r == is_ascii_ws(c),
{
    c == ' ' || c == '\t' || c == '\n' || c == '\x0C' || c == '\r'
}

/// Split `s` at ASCII whitespace into its words.
pub fn split_words(s: &str) -> (r: Vec<String>)
    ensures
        views(r@) == words(s@),
{
    let len = s.unicode_len();
    let mut out: Vec<String> = Vec::new();
    let mut it = s.chars();
    let mut i: usize = 0;
    let mut start: usize = 0;
    while i < len
        invariant
            len == s@.len(),
            it.remaining() == s@.skip(i as int),
            start <= i <= len,
            views(out@) == scan_words(s@.take(i as int)).0,
            s@.subrange(start as int, i as int) == scan_words(s@.take(i as int)).1,
        decreases len - i,
    {
        proof {
            assert(s@.skip(i as int).len() > 0);
        }
        let c = it.next().unwrap();
        proof {
            assert(c == s@[i as int]);
            assert(s@.take(i + 1).drop_last() =~= s@.take(i as int));
            assert(s@.skip(i + 1) =~= s@.skip(i as int).drop_first());
        }
        if is_ws(c) {
            if start < i {
                let ghost before = out@;
                let word = s.substring_char(start, i).to_owned();
                out.push(word);
                proof {
                    assert(views(out@) =~= views(before).push(s@.subrange(start as int, i as int)));
                }
            }
            start = i + 1;
        } else {
            proof {
                assert(s@.subrange(start as int, i + 1) =~= s@.subrange(start as int, i as int).push(c));
            }
        }
        i += 1;
    }
    proof {
        assert(s@.take(i as int) =~= s@);
    }
    let ghost before = out@;
    if start < i {
        let word = s.substring_char(start, i).to_owned();
        out.push(word);
        proof {
            assert(views(out@) =~= views(before).push(s@.subrange(start as int, i as int)));
        }
    }
    proof {
        assert(views(out@) =~= words(s@));
    }
    out
}

/// Read a command from a line such as `setvar ezpl.print_width 200`: its
/// first word is the verb's keyword, the other words are its arguments.
pub fn parse_sgd(s: &str) -> (r: Result<SGDCommands, SgdParseError>)
    ensures
        r is Ok <==> words(s@).len() >= 3 && is_verb(words(s@)[0]),
        r is Ok ==> r->Ok_0.verb() == words(s@)[0] && r->Ok_0.args() == words(s@).skip(1),
        words(s@).len() < 3 ==> r == Err::<SGDCommands, SgdParseError>(SgdParseError::Incomplete),
        words(s@).len() >= 3 && !is_verb(words(s@)[0]) ==> r == Err::<SGDCommands, SgdParseError>(
            SgdParseError::UnknownVerb,
        ),
{
    let mut cmds = split_words(s);
    if cmds.len() < 3 {
        return Err(SgdParseError::Incomplete);
    }
    let ghost all = cmds@;
    let final_cmds = cmds.split_off(1);
    proof {
        assert(views(final_cmds@) =~= words(s@).skip(1));
        assert(cmds@[0] == all[0]);
    }
    let setvar = "setvar".to_owned();
    let getvar = "getvar".to_owned();
    let do_kw = "do".to_owned();
    if cmds[0] == setvar {
        Ok(SGDCommands::Setvar { cmd: final_cmds })
    } else if cmds[0] == getvar {
        Ok(SGDCommands::Get { cmd: final_cmds })
    } else if cmds[0] == do_kw {
        Ok(SGDCommands::Do { cmd: final_cmds })
    } else {
        Err(SgdParseError::UnknownVerb)
    }
}

impl core::str::FromStr for SGDCommands {
    type Err = SgdParseError;

    fn from_str(s: &str) -> (r: Result<SGDCommands, SgdParseError>)
        ensures
            r is Ok <==> words(s@).len() >= 3 && is_verb(words(s@)[0]),
            r is Ok ==> r->Ok_0.verb() == words(s@)[0] && r->Ok_0.args() == words(s@).skip(1),
            words(s@).len() < 3 ==> r == Err::<SGDCommands, SgdParseError>(SgdParseError::Incomplete),
            words(s@).len() >= 3 && !is_verb(words(s@)[0]) ==> r == Err::<SGDCommands, SgdParseError>(
                SgdParseError::UnknownVerb,
            ),
    {
        parse_sgd(s)
    }
}

} // verus!
