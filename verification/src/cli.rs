//! What the command line decides: which colour spaces are meant, what an
//! output file is called, and whether a file that exists is overwritten.
use vstd::prelude::*;
use vstd::string::{StringExecFns, StringSliceAdditionalSpecFns};
use crate::spaces::{kind_at, kind_index, kind_name, lemma_kind_index, spaces, Kind, Space, SPACE_COUNT};

verus! {

/// A colour space that was chosen by name.
#[derive(Clone, Copy, Debug)]
pub struct SpaceArg(pub Space);

/// What to do about output files that exist already.
#[derive(Clone, Copy, Debug, PartialEq, Eq, Structural)]
pub enum Confirmer {
    /// Leave them alone.
    Skip,
    /// Overwrite them without asking.
    Overwrite,
    /// Ask about each.
    Interactive,
}

/// What is done about one output file.
#[derive(Clone, Copy, Debug, PartialEq, Eq, Structural)]
pub enum Decision {
    /// Write the file.
    Write,
    /// Leave the file as it is and say so.
    Skip,
    /// Ask whether to overwrite the file.
    Ask,
}

/// What a line of input answers to the question whether to overwrite.
#[derive(Clone, Copy, Debug, PartialEq, Eq, Structural)]
pub enum Answer {
    Yes,
    No,
    /// Neither: the question is asked again.
    Unclear,
    /// The input has ended, which counts as a no.
    EndOfInput,
}

/// A byte with an ASCII capital letter made small.
pub open spec fn fold(b: u8) -> u8 {
    if 65 <= b <= 90 {
        (b + 32) as u8
    } else {
        b
    }
}

/// Whether two texts are equal but for the case of their ASCII letters.
pub open spec fn caseless_eq(a: Seq<u8>, b: Seq<u8>) -> bool {
    &&& a.len() == b.len()
    &&& forall|i: int| 0 <= i < a.len() ==> fold(#[trigger] a[i]) == fold(b[i])
}

/// Whether a text names a kind of colour space.
pub open spec fn names(arg: Seq<u8>, kind: Kind) -> bool {
    caseless_eq(arg, vstd::utf8::encode_utf8(kind_name(kind)))
}

/// Whether two texts are equal but for the case of their ASCII letters.
pub fn eq_ignore_ascii_case(a: &[u8], b: &[u8]) -> (same: bool)
    ensures
        same == caseless_eq(a@, b@),
{
    if a.len() != b.len() {
        return false;
    }
    let mut i: usize = 0;
    while i < a.len()
        invariant
            i <= a@.len(),
            a@.len() == b@.len(),
            forall|k: int| 0 <= k < i ==> fold(#[trigger] a@[k]) == fold(b@[k]),
        decreases a@.len() - i,
    {
        let x: u8 = a[i];
        let y: u8 = b[i];
        let fx: u8 = if 65 <= x && x <= 90 {
            x + 32
        } else {
            x
        };
        let fy: u8 = if 65 <= y && y <= 90 {
            y + 32
        } else {
            y
        };
        if fx != fy {
            return false;
        }
        i += 1;
    }
    true
}

/// The first space of the registry that a text names, ignoring the case of
/// ASCII letters.
pub fn find_space(arg: &[u8]) -> (out: Option<Space>)
    ensures
        match out {
            Some(space) => {
                &&& names(arg@, space.spec_kind())
                &&& forall|i: int|
                    0 <= i < kind_index(space.spec_kind()) ==> !names(arg@, #[trigger] kind_at(i))
            },
            None => forall|i: int| 0 <= i < SPACE_COUNT ==> !names(arg@, #[trigger] kind_at(i)),
        },
{
    let all = spaces();
    let mut i: usize = 0;
    while i < all.len()
        invariant
            i <= SPACE_COUNT,
            all@.len() == SPACE_COUNT,
            forall|j: int|
                0 <= j < SPACE_COUNT ==> (#[trigger] all@[j]).spec_kind() == kind_at(j),
            forall|j: int| 0 <= j < i ==> !names(arg@, #[trigger] kind_at(j)),
        decreases SPACE_COUNT - i,
    {
        let space: Space = all[i];
        if eq_ignore_ascii_case(arg, space.name().as_bytes()) {
            proof {
                lemma_kind_index(kind_at(i as int));
            }
            return Some(space);
        }
        i += 1;
    }
    None
}

impl Confirmer {
    /// The policy that the two flags ask for; `yes` wins over
    /// `interactive`.
    pub fn new(yes: bool, interactive: bool) -> (out: Confirmer)
        ensures
            yes ==> out == Confirmer::Overwrite,
            !yes && interactive ==> out == Confirmer::Interactive,
            !yes && !interactive ==> out == Confirmer::Skip,
    {
        if yes {
            Confirmer::Overwrite
        } else if interactive {
            Confirmer::Interactive
        } else {
            Confirmer::Skip
        }
    }

    /// What is done about an output file, given whether it exists.
    pub fn confirm(&self, exists: bool) -> (out: Decision)
        ensures
            out == Decision::Write <==> (*self == Confirmer::Overwrite || !exists),
            out == Decision::Ask <==> (*self == Confirmer::Interactive && exists),
            out == Decision::Skip <==> (*self == Confirmer::Skip && exists),
    {
        match self {
            Confirmer::Overwrite => Decision::Write,
            Confirmer::Skip => if exists {
                Decision::Skip
            } else {
                Decision::Write
            },
            Confirmer::Interactive => if exists {
                Decision::Ask
            } else {
                Decision::Write
            },
        }
    }
}

/// A line without the line ends that close it.
pub open spec fn trimmed(s: Seq<u8>) -> Seq<u8>
    decreases s.len(),
{
    if s.len() > 0 && (s.last() == 10 || s.last() == 13) {
        trimmed(s.drop_last())
    } else {
        s
    }
}

/// What a line answers: no line at all is the end of the input; `y` or `Y`
/// is a yes; `n`, `N` or an empty line is a no; anything else is unclear.
pub open spec fn answer_of(line: Seq<u8>) -> Answer {
    let t = trimmed(line);
    if line.len() == 0 {
        Answer::EndOfInput
    } else if t.len() == 1 && (t[0] == 121 || t[0] == 89) {
        Answer::Yes
    } else if t.len() == 0 || (t.len() == 1 && (t[0] == 110 || t[0] == 78)) {
        Answer::No
    } else {
        Answer::Unclear
    }
}

/// Reads the answer that a line of input gives.
pub fn read_answer(line: &[u8]) -> (out: Answer)
    ensures
        out == answer_of(line@),
{
    if line.len() == 0 {
        return Answer::EndOfInput;
    }
    let mut end: usize = line.len();
    assert(line@.subrange(0, end as int) =~= line@);
    while end > 0 && (line[end - 1] == 10 || line[end - 1] == 13)
        invariant
            end <= line@.len(),
            trimmed(line@) == trimmed(line@.subrange(0, end as int)),
        decreases end,
    {
        proof {
            let cur = line@.subrange(0, end as int);
            assert(cur.drop_last() =~= line@.subrange(0, end - 1));
        }
        end -= 1;
    }
    proof {
        let cur = line@.subrange(0, end as int);
        assert(trimmed(cur) == cur);
    }
    if end == 1 && (line[0] == 121 || line[0] == 89) {
        Answer::Yes
    } else if end == 0 || (end == 1 && (line[0] == 110 || line[0] == 78)) {
        Answer::No
    } else {
        Answer::Unclear
    }
}

/// The names of the first `count` spaces of the registry, with a comma and
/// a space between each two.
pub open spec fn joined_names(count: int) -> Seq<char>
    decreases count,
{
    if count <= 0 {
        Seq::empty()
    } else if count == 1 {
        kind_name(kind_at(0))
    } else {
        joined_names(count - 1) + ", "@ + kind_name(kind_at(count - 1))
    }
}

/// What is said of a name that no space has: the names that there are.
pub open spec fn supported_message() -> Seq<char> {
    "supported colour spaces: "@ + joined_names(SPACE_COUNT as int)
}

/// The message that lists the names of all spaces.
pub fn supported_spaces() -> (msg: String)
    ensures
        msg@ == supported_message(),
{
    let all = spaces();
    let mut msg: String = "supported colour spaces: ".to_owned();
    let mut i: usize = 0;
    assert(msg@ =~= "supported colour spaces: "@ + joined_names(0));
    while i < all.len()
        invariant
            i <= SPACE_COUNT,
            all@.len() == SPACE_COUNT,
            forall|j: int|
                0 <= j < SPACE_COUNT ==> (#[trigger] all@[j]).spec_kind() == kind_at(j),
            msg@ == "supported colour spaces: "@ + joined_names(i as int),
        decreases SPACE_COUNT - i,
    {
        if i > 0 {
            msg.append(", ");
        }
        msg.append(all[i].name());
        proof {
            let name = kind_name(kind_at(i as int));
            if i == 0 {
                assert(joined_names(0) =~= Seq::<char>::empty());
                assert(msg@ =~= "supported colour spaces: "@ + joined_names(1));
            } else {
                assert(msg@ =~= "supported colour spaces: "@ + (joined_names(i as int) + ", "@
                    + name));
            }
        }
        i += 1;
    }
    msg
}

impl SpaceArg {
    /// The space that a text names, ignoring the case of ASCII letters;
    /// for a text that names none, the list of the names that there are.
    pub fn parse(arg: &str) -> (out: Result<SpaceArg, String>)
        ensures
            match out {
                Ok(found) => {
                    &&& names(arg.spec_bytes(), found.0.spec_kind())
                    &&& forall|i: int|
                        0 <= i < kind_index(found.0.spec_kind()) ==> !names(
                            arg.spec_bytes(),
                            #[trigger] kind_at(i),
                        )
                },
                Err(msg) => {
                    &&& msg@ == supported_message()
                    &&& forall|i: int|
                        0 <= i < SPACE_COUNT ==> !names(arg.spec_bytes(), #[trigger] kind_at(i))
                },
            },
    {
        match find_space(arg.as_bytes()) {
            Some(space) => Ok(SpaceArg(space)),
            None => Err(supported_spaces()),
        }
    }
}

/// Choosing a space by name: the first space of the registry that the text
/// names, or the list of the names that there are.
impl std::str::FromStr for SpaceArg {
    type Err = String;

    fn from_str(arg: &str) -> (out: Result<Self, Self::Err>)
        ensures
            match out {
                Ok(found) => {
                    &&& names(arg.spec_bytes(), found.0.spec_kind())
                    &&& forall|i: int|
                        0 <= i < kind_index(found.0.spec_kind()) ==> !names(
                            arg.spec_bytes(),
                            #[trigger] kind_at(i),
                        )
                },
                Err(msg) => {
                    &&& msg@ == supported_message()
                    &&& forall|i: int|
                        0 <= i < SPACE_COUNT ==> !names(arg.spec_bytes(), #[trigger] kind_at(i))
                },
            },
    {
        SpaceArg::parse(arg)
    }
}

/// Whether a selection holds a space of the given kind.
pub open spec fn holds(list: Seq<SpaceArg>, kind: Kind) -> bool {
    exists|i: int| 0 <= i < list.len() && (#[trigger] list[i]).0.spec_kind() == kind
}

/// Whether a selection asks for a kind: an empty selection asks for every
/// kind.
pub open spec fn wanted(chosen: Seq<SpaceArg>, kind: Kind) -> bool {
    chosen.len() == 0 || holds(chosen, kind)
}

/// The spaces to build for a selection: every space that the selection
/// asks for, once, in the order of the registry.
pub fn select_spaces(chosen: &Vec<SpaceArg>) -> (out: Vec<SpaceArg>)
    ensures
        forall|i: int, j: int|
            0 <= i < j < out@.len() ==> kind_index((#[trigger] out@[i]).0.spec_kind())
                < kind_index((#[trigger] out@[j]).0.spec_kind()),
        forall|k: int|
            0 <= k < SPACE_COUNT ==> (holds(out@, #[trigger] kind_at(k)) <==> wanted(
                chosen@,
                kind_at(k),
            )),
{
    let mut marks: Vec<bool> = vec![false; SPACE_COUNT];
    let mut i: usize = 0;
    while i < chosen.len()
        invariant
            i <= chosen@.len(),
            marks@.len() == SPACE_COUNT,
            forall|k: int|
                0 <= k < SPACE_COUNT ==> (#[trigger] marks@[k] <==> holds(
                    chosen@.subrange(0, i as int),
                    kind_at(k),
                )),
        decreases chosen@.len() - i,
    {
        let kind: Kind = chosen[i].0.kind();
        let ghost head = chosen@.subrange(0, i as int);
        let ghost next = chosen@.subrange(0, i + 1);
        proof {
            lemma_kind_index(kind);
        }
        marks[kind.index()] = true;
        proof {
            assert forall|k: int| 0 <= k < SPACE_COUNT implies (#[trigger] marks@[k] <==> holds(
                next,
                kind_at(k),
            )) by {
                if holds(head, kind_at(k)) {
                    let w = choose|w: int|
                        0 <= w < head.len() && (#[trigger] head[w]).0.spec_kind() == kind_at(k);
                    assert(next[w] == head[w]);
                }
                if k == kind_index(kind) {
                    assert(next[i as int].0.spec_kind() == kind_at(k));
                }
                if holds(next, kind_at(k)) && k != kind_index(kind) {
                    let w = choose|w: int|
                        0 <= w < next.len() && (#[trigger] next[w]).0.spec_kind() == kind_at(k);
                    assert(w < i);
                    assert(head[w] == next[w]);
                }
            }
        }
        i += 1;
    }
    assert(chosen@.subrange(0, i as int) =~= chosen@);
    let every: bool = chosen.len() == 0;
    let mut out: Vec<SpaceArg> = Vec::new();
    let mut k: usize = 0;
    while k < SPACE_COUNT
        invariant
            k <= SPACE_COUNT,
            marks@.len() == SPACE_COUNT,
            every == (chosen@.len() == 0),
            forall|m: int|
                0 <= m < SPACE_COUNT ==> (#[trigger] marks@[m] <==> holds(chosen@, kind_at(m))),
            forall|j: int| 0 <= j < out@.len() ==> kind_index((#[trigger] out@[j]).0.spec_kind()) < k,
            forall|i: int, j: int|
                0 <= i < j < out@.len() ==> kind_index((#[trigger] out@[i]).0.spec_kind())
                    < kind_index((#[trigger] out@[j]).0.spec_kind()),
            forall|m: int|
                0 <= m < k ==> (holds(out@, #[trigger] kind_at(m)) <==> wanted(
                    chosen@,
                    kind_at(m),
                )),
        decreases SPACE_COUNT - k,
    {
        let ghost before = out@;
        let take: bool = every || marks[k];
        if take {
            match Kind::from_index(k) {
                Some(kind) => {
                    out.push(SpaceArg(Space::of(kind)));
                },
                None => {
                    assert(false);
                },
            }
        }
        proof {
            assert forall|m: int| 0 <= m < k + 1 implies (holds(out@, #[trigger] kind_at(m))
                <==> wanted(chosen@, kind_at(m))) by {
                lemma_kind_index(kind_at(m));
                if holds(before, kind_at(m)) {
                    let w = choose|w: int|
                        0 <= w < before.len() && (#[trigger] before[w]).0.spec_kind() == kind_at(
                            m,
                        );
                    assert(out@[w] == before[w]);
                }
                if take && m == k {
                    assert(out@[before.len() as int].0.spec_kind() == kind_at(m));
                }
                if holds(out@, kind_at(m)) {
                    let w = choose|w: int|
                        0 <= w < out@.len() && (#[trigger] out@[w]).0.spec_kind() == kind_at(m);
                    if w < before.len() {
                        assert(before[w] == out@[w]);
                    }
                }
            }
        }
        k += 1;
    }
    out
}

/// The name of the file that holds the composite of an image in a space:
/// the stem of the image's name, a hyphen, the name of the space, and
/// `.webp`.
pub fn output_file_name(space: &Space, file_stem: &[u8]) -> (name: Vec<u8>)
    ensures
        name@ == file_stem@ + seq![45u8] + vstd::utf8::encode_utf8(kind_name(space.spec_kind()))
            + seq![46u8, 119u8, 101u8, 98u8, 112u8],
{
    let suffix: &[u8] = space.name().as_bytes();
    let mut name: Vec<u8> = Vec::new();
    name.extend_from_slice(file_stem);
    name.push(45);
    name.extend_from_slice(suffix);
    name.push(46);
    name.push(119);
    name.push(101);
    name.push(98);
    name.push(112);
    assert(name@ =~= file_stem@ + seq![45u8] + vstd::utf8::encode_utf8(
        kind_name(space.spec_kind()),
    ) + seq![46u8, 119u8, 101u8, 98u8, 112u8]);
    name
}

} // verus!
