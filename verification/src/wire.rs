//! The reading of a request: its three parts, and the command that its
//! first word names.

use vstd::prelude::*;

verus! {

/// The commands that a request can name.
#[derive(Debug, Clone, Copy, PartialEq, Eq)]
pub enum Command {
    Create,
    Read,
    Update,
    Delete,
    Append,
    Remove,
}

/// A request, cut into its parts. A request without payload has the empty
/// payload.
#[derive(Debug, Clone, PartialEq)]
pub struct Request {
    pub command: String,
    pub key: String,
    pub payload: String,
}

/// The parts of a request as contracts see them.
pub ghost struct RequestView {
    pub command: Seq<char>,
    pub key: Seq<char>,
    pub payload: Seq<char>,
}

impl View for Request {
    type V = RequestView;

    open spec fn view(&self) -> RequestView {
        RequestView { command: self.command@, key: self.key@, payload: self.payload@ }
    }
}

/// Whether the first space of `line` stands at `i`.
pub open spec fn is_first_space(line: Seq<char>, i: int) -> bool {
    &&& 0 <= i < line.len()
    &&& line[i] == ' '
    &&& forall|j: int| 0 <= j < i ==> line[j] != ' '
}

/// `line` cut in two at its first space, which belongs to neither part;
/// `None` where it holds no space.
pub open spec fn cut(line: Seq<char>) -> Option<(Seq<char>, Seq<char>)> {
    if exists|i: int| is_first_space(line, i) {
        let i = choose|i: int| is_first_space(line, i);
        Some((line.take(i), line.skip(i + 1)))
    } else {
        None
    }
}

/// The parts of a request: the command up to the first space, the key up to
/// the second, and the rest as payload. A line without a space is no request.
pub open spec fn request_parts(line: Seq<char>) -> Option<RequestView> {
    match cut(line) {
        None => None,
        Some((command, rest)) => match cut(rest) {
            None => Some(RequestView { command, key: rest, payload: Seq::empty() }),
            Some((key, payload)) => Some(RequestView { command, key, payload }),
        },
    }
}

/// A line is cut where its first space stands.
pub proof fn lemma_cut_at(line: Seq<char>, i: int)
    requires
        is_first_space(line, i),
    ensures
        cut(line) == Some((line.take(i), line.skip(i + 1))),
{
    let j = choose|j: int| is_first_space(line, j);
    assert(is_first_space(line, j));
    if j < i {
        assert(line[j] != ' ');
    }
    if i < j {
        assert(line[i] != ' ');
    }
}

/// A line without a space is not cut.
pub proof fn lemma_cut_none(line: Seq<char>)
    requires
        forall|j: int| 0 <= j < line.len() ==> line[j] != ' ',
    ensures
        cut(line) is None,
{
}

/// Cuts a request into command, key and payload.
pub fn parse_request(request: &str) -> (r: Option<Request>)
    ensures
        r is Some == request_parts(request@) is Some,
        r matches Some(parts) ==> request_parts(request@) == Some(parts@),
{
    let ghost line = request@;
    let mut command = String::new();
    let mut key = String::new();
    let mut payload = String::new();
    let mut seen: u8 = 0;
    let ghost mut first: int = 0;
    let ghost mut second: int = 0;
    for c in it: request.chars()
        invariant
            it.seq() == line,
            line == request@,
            seen <= 2,
            seen == 0 ==> {
                &&& command@ == line.take(it.index() as int)
                &&& forall|j: int| 0 <= j < it.index() ==> line[j] != ' '
                &&& key@.len() == 0
                &&& payload@.len() == 0
            },
            seen >= 1 ==> {
                &&& is_first_space(line, first)
                &&& first < it.index()
                &&& command@ == line.take(first)
            },
            seen == 1 ==> {
                &&& key@ == line.subrange(first + 1, it.index() as int)
                &&& forall|j: int| first < j < it.index() ==> line[j] != ' '
                &&& payload@.len() == 0
            },
            seen == 2 ==> {
                &&& first < second < it.index()
                &&& line[second] == ' '
                &&& forall|j: int| first < j < second ==> line[j] != ' '
                &&& key@ == line.subrange(first + 1, second)
                &&& payload@ == line.subrange(second + 1, it.index() as int)
            },
    {
        let ghost at = it.index() as int;
        if seen < 2 && c == ' ' {
            proof {
                if seen == 0 {
                    first = at;
                } else {
                    second = at;
                }
            }
            seen = seen + 1;
            assert(payload@ =~= line.subrange(at + 1, at + 1));
            assert(key@ =~= line.subrange(first + 1, if seen == 1 { at + 1 } else { second }));
        } else if seen == 0 {
            command.push(c);
            assert(command@ =~= line.take(at + 1));
        } else if seen == 1 {
            key.push(c);
            assert(key@ =~= line.subrange(first + 1, at + 1));
        } else {
            payload.push(c);
            assert(payload@ =~= line.subrange(second + 1, at + 1));
        }
    }
    if seen == 0 {
        proof {
            lemma_cut_none(line);
        }
        None
    } else {
        proof {
            let rest = line.skip(first + 1);
            lemma_cut_at(line, first);
            if seen == 1 {
                assert(key@ =~= rest);
                lemma_cut_none(rest);
                assert(payload@ =~= Seq::<char>::empty());
            } else {
                assert(is_first_space(rest, second - (first + 1)));
                lemma_cut_at(rest, second - (first + 1));
                assert(key@ =~= rest.take(second - (first + 1)));
                assert(payload@ =~= rest.skip(second - (first + 1) + 1));
            }
        }
        Some(Request { command, key, payload })
    }
}

/// A lower-case letter of the alphabet as its capital; any other character
/// as itself.
pub open spec fn upper(c: char) -> char {
    if 'a' <= c && c <= 'z' {
        ((c as u8) - 32) as u8 as char
    } else {
        c
    }
}

/// `word` with its lower-case letters as capitals.
pub open spec fn upper_word(word: Seq<char>) -> Seq<char> {
    word.map_values(|c: char| upper(c))
}

/// The command that a word names, whatever the case of its letters.
pub open spec fn command_named(word: Seq<char>) -> Option<Command> {
    let name = upper_word(word);
    if name == "CREATE"@ {
        Some(Command::Create)
    } else if name == "READ"@ {
        Some(Command::Read)
    } else if name == "UPDATE"@ {
        Some(Command::Update)
    } else if name == "DELETE"@ {
        Some(Command::Delete)
    } else if name == "APPEND"@ {
        Some(Command::Append)
    } else if name == "REMOVE"@ {
        Some(Command::Remove)
    } else {
        None
    }
}

/// A lower-case letter as its capital; any other character as itself.
pub fn to_upper(c: char) -> (r: char)
    ensures
        r == upper(c),
{
    if 'a' <= c && c <= 'z' {
        ((c as u8) - 32) as char
    } else {
        c
    }
}

/// Finds the command that `word` names, whatever the case of its letters.
pub fn command_of(word: &str) -> (r: Option<Command>)
    ensures
        r == command_named(word@),
{
    let mut name = String::new();
    for c in it: word.chars()
        invariant
            it.seq() == word@,
            name@ == upper_word(word@.take(it.index() as int)),
    {
        let ghost at = it.index() as int;
        name.push(to_upper(c));
        assert(name@ =~= upper_word(word@.take(at + 1)));
    }
    assert(word@.take(word@.len() as int) =~= word@);
    let name = name.as_str();
    if name.eq("CREATE") {
        Some(Command::Create)
    } else if name.eq("READ") {
        Some(Command::Read)
    } else if name.eq("UPDATE") {
        Some(Command::Update)
    } else if name.eq("DELETE") {
        Some(Command::Delete)
    } else if name.eq("APPEND") {
        Some(Command::Append)
    } else if name.eq("REMOVE") {
        Some(Command::Remove)
    } else {
        None
    }
}

} // verus!
