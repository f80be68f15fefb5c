//! Files that hold one number.
use vstd::prelude::*;

use crate::host::{Answer, Plan, Probe, Query, Reply, Request, Step, asks, run};
use crate::text::{trim, trimmed};

verus! {

/// The path of `name` in the directory `dir`.
pub open spec fn path_of(dir: Seq<char>, name: Seq<char>) -> Seq<char> {
    dir + "/"@ + name
}

/// The path of `name` in the directory `dir`.
pub fn path(dir: &str, name: &str) -> (r: String)
    ensures
        r@ == path_of(dir@, name@),
{
    dir.to_owned().concat("/").concat(name)
}

/// The paths of these names in the directory `dir`.
pub open spec fn paths_of(dir: Seq<char>, names: Seq<Seq<char>>) -> Seq<Seq<char>> {
    names.map_values(|name: Seq<char>| path_of(dir, name))
}

/// The paths of these names in the directory `dir`.
pub fn paths(dir: &str, names: &Vec<String>) -> (r: Vec<String>)
    ensures
        r.deep_view() == paths_of(dir@, names.deep_view()),
{
    let mut r: Vec<String> = Vec::new();
    let mut i: usize = 0;
    while i < names.len()
        invariant
            i <= names.len(),
            r.deep_view() == paths_of(dir@, names.deep_view()).take(i as int),
        decreases names.len() - i,
    {
        let ghost before = r.deep_view();
        r.push(path(dir, names[i].as_str()));
        assert(r.deep_view() =~= before.push(path_of(dir@, names.deep_view()[i as int])));
        i = i + 1;
    }
    assert(r.deep_view() =~= paths_of(dir@, names.deep_view()));
    r
}

/// Reads the file at `path` and takes its text, without the white space around it, as a
/// single-precision number.
pub open spec fn read_number_plan(path: Seq<char>) -> Plan<Option<u32>> {
    Plan::Ask(Request::Read(path), |answer: Answer| parse_number_plan(answer.text()))
}

/// Takes a text that may be there, without the white space around it, as a number.
pub open spec fn parse_number_plan(text: Option<Seq<char>>) -> Plan<Option<u32>> {
    match text {
        Some(t) => Plan::Ask(
            Request::Float(trimmed(t)),
            |answer: Answer| Plan::Done(answer.number()),
        ),
        None => Plan::Done(None),
    }
}

enum NumberStage {
    File(Ghost<Seq<char>>),
    Text(Ghost<Seq<char>>),
}

/// The search for the number in a file.
pub struct NumberProbe {
    stage: NumberStage,
}

impl Probe for NumberProbe {
    type Found = Option<u32>;

    closed spec fn plan(&self) -> Plan<Option<u32>> {
        match self.stage {
            NumberStage::File(path) => read_number_plan(path@),
            NumberStage::Text(text) => parse_number_plan(Some(text@)),
        }
    }

    proof fn waits(&self) {
    }

    fn resume(self, reply: Reply) -> (r: Step<Self, Option<u32>>) {
        match self.stage {
            NumberStage::File(_) => match reply.text() {
                Some(t) => Step::Ask(
                    Query::Float(trim(t.as_str()).to_owned()),
                    NumberProbe { stage: NumberStage::Text(Ghost(t@)) },
                ),
                None => Step::Done(None),
            },
            NumberStage::Text(_) => Step::Done(reply.number()),
        }
    }
}

/// Begins to look for the number in the file at `path`.
pub fn read_number(path: String) -> (r: (Query, NumberProbe))
    ensures
        asks(r.0, r.1, read_number_plan(path@)),
{
    let ghost p = path@;
    (Query::Read(path), NumberProbe { stage: NumberStage::File(Ghost(p)) })
}

/// The number in the file at `path` of a machine that answers as `world` does.
pub open spec fn number_in(world: spec_fn(Request) -> Answer, path: Seq<char>) -> Option<u32> {
    match world(Request::Read(path)).text() {
        Some(t) => world(Request::Float(trimmed(t))).number(),
        None => None,
    }
}

/// On a machine that does not change, the search for the number in a file finds the one that its
/// text, without the white space around it, writes.
pub proof fn read_number_finds(world: spec_fn(Request) -> Answer, path: Seq<char>)
    ensures
        run(read_number_plan(path), world) == number_in(world, path),
{
    reveal_with_fuel(run, 3);
}

/// A path is the directory, a slash and the name; several paths are made one by one.
pub proof fn paths_have_a_slash(dir: Seq<char>, names: Seq<Seq<char>>, name: Seq<char>)
    ensures
        path_of(dir, name) == dir.push('/') + name,
        paths_of(dir, names).len() == names.len(),
        forall|i: int|
            0 <= i < names.len() ==> #[trigger] paths_of(dir, names)[i] == dir.push('/') + names[i],
{
    reveal_strlit("/");
    assert(dir + "/"@ =~= dir.push('/'));
}

/// The search for the number in a file reads that file, and finds the number that its text writes
/// once the white space around it is gone; and none where the file cannot be read, or where the text
/// writes none.
pub proof fn number_of_a_file(path: String, r: (Query, NumberProbe), world: spec_fn(Request) -> Answer)
    ensures
        number_in(world, path@) == (match world(Request::Read(path@)) {
            Answer::Text(Some(t)) => match world(Request::Float(trimmed(t))) {
                Answer::Number(n) => n,
                _ => None,
            },
            _ => None,
        }),
        call_ensures(read_number, (path,), r) ==> {
            &&& r.0@ == Request::Read(path@)
            &&& run(r.1.plan(), world) == (match world(Request::Read(path@)) {
                Answer::Text(Some(t)) => match world(Request::Float(trimmed(t))) {
                    Answer::Number(n) => n,
                    _ => None,
                },
                _ => None,
            })
        },
{
    read_number_finds(world, path@);
}

} // verus!
