//! What a sensor asks of the machine it runs on, and what it makes of the answers.
//!
//! A sensor that has to look around (at files, at directories, at a graphics driver) is a
//! [`Probe`]: it names one query at a time, is handed the reply, and goes on from there until it
//! has a result. What it does in all is its plan, a tree of queries and answers; what it finds on a
//! machine that does not change meanwhile is [`run`] of that plan.
use vstd::prelude::*;

verus! {

/// One thing to be found out about the machine.
pub enum Query {
    /// Whether there is a file or directory at this path. Answered by [`Reply::Flag`].
    Exists(String),
    /// The text of the file at this path. Answered by [`Reply::Text`].
    Read(String),
    /// The names of the entries of the directory at this path, in the order in which the system
    /// gives them. Answered by [`Reply::Names`].
    List(String),
    /// The single-precision number that this text writes, as its bit pattern. Answered by
    /// [`Reply::Number`].
    Float(String),
    /// How many devices the NVIDIA driver manages. Answered by [`Reply::Number`].
    DeviceCount,
    /// The NVIDIA device with this index. Answered by [`Reply::Device`].
    Device(u32),
    /// The load of the NVIDIA device with this index, in percent. Answered by [`Reply::Number`].
    DeviceLoad(u32),
    /// The temperature of the NVIDIA device with this index, in degrees. Answered by
    /// [`Reply::Number`].
    DeviceTemperature(u32),
    /// The memory of the NVIDIA device with this index. Answered by [`Reply::Memory`].
    DeviceMemory(u32),
    /// The power draw of the NVIDIA device with this index, in milliwatts. Answered by
    /// [`Reply::Number`].
    DevicePower(u32),
}

/// The answer to a [`Query`]. `None` says that the machine could not tell.
pub enum Reply {
    Flag(bool),
    Text(Option<String>),
    Names(Option<Vec<String>>),
    Number(Option<u32>),
    /// The name of a device, where there is such a device and where it has a name.
    Device(Option<Option<String>>),
    /// Bytes in use, then bytes in all.
    Memory(Option<(u64, u64)>),
}

/// A [`Query`], its text taken as a sequence of characters.
pub enum Request {
    Exists(Seq<char>),
    Read(Seq<char>),
    List(Seq<char>),
    Float(Seq<char>),
    DeviceCount,
    Device(u32),
    DeviceLoad(u32),
    DeviceTemperature(u32),
    DeviceMemory(u32),
    DevicePower(u32),
}

/// A [`Reply`], its text taken as a sequence of characters.
pub enum Answer {
    Flag(bool),
    Text(Option<Seq<char>>),
    Names(Option<Seq<Seq<char>>>),
    Number(Option<u32>),
    Device(Option<Option<Seq<char>>>),
    Memory(Option<(u64, u64)>),
}

impl View for Query {
    type V = Request;

    open spec fn view(&self) -> Request {
        match *self {
            Query::Exists(p) => Request::Exists(p@),
            Query::Read(p) => Request::Read(p@),
            Query::List(p) => Request::List(p@),
            Query::Float(t) => Request::Float(t@),
            Query::DeviceCount => Request::DeviceCount,
            Query::Device(i) => Request::Device(i),
            Query::DeviceLoad(i) => Request::DeviceLoad(i),
            Query::DeviceTemperature(i) => Request::DeviceTemperature(i),
            Query::DeviceMemory(i) => Request::DeviceMemory(i),
            Query::DevicePower(i) => Request::DevicePower(i),
        }
    }
}

impl View for Reply {
    type V = Answer;

    open spec fn view(&self) -> Answer {
        match *self {
            Reply::Flag(b) => Answer::Flag(b),
            Reply::Text(t) => Answer::Text(t.deep_view()),
            Reply::Names(n) => Answer::Names(n.deep_view()),
            Reply::Number(n) => Answer::Number(n),
            Reply::Device(d) => Answer::Device(d.deep_view()),
            Reply::Memory(m) => Answer::Memory(m),
        }
    }
}

/// Each of these reads an answer of one kind; an answer of another kind tells nothing.
impl Answer {
    pub open spec fn flag(self) -> bool {
        self == Answer::Flag(true)
    }

    pub open spec fn text(self) -> Option<Seq<char>> {
        match self {
            Answer::Text(t) => t,
            _ => None,
        }
    }

    pub open spec fn names(self) -> Option<Seq<Seq<char>>> {
        match self {
            Answer::Names(n) => n,
            _ => None,
        }
    }

    pub open spec fn number(self) -> Option<u32> {
        match self {
            Answer::Number(n) => n,
            _ => None,
        }
    }

    pub open spec fn device(self) -> Option<Option<Seq<char>>> {
        match self {
            Answer::Device(d) => d,
            _ => None,
        }
    }

    pub open spec fn memory(self) -> Option<(u64, u64)> {
        match self {
            Answer::Memory(m) => m,
            _ => None,
        }
    }
}

/// Each of these reads a reply of one kind; a reply of another kind tells nothing.
impl Reply {
    pub fn flag(self) -> (r: bool)
        ensures
            r == self@.flag(),
    {
        match self {
            Reply::Flag(b) => b,
            _ => false,
        }
    }

    pub fn text(self) -> (r: Option<String>)
        ensures
            r.deep_view() == self@.text(),
    {
        match self {
            Reply::Text(t) => t,
            _ => None,
        }
    }

    pub fn names(self) -> (r: Option<Vec<String>>)
        ensures
            r.deep_view() == self@.names(),
    {
        match self {
            Reply::Names(n) => n,
            _ => None,
        }
    }

    pub fn number(self) -> (r: Option<u32>)
        ensures
            r == self@.number(),
    {
        match self {
            Reply::Number(n) => n,
            _ => None,
        }
    }

    pub fn device(self) -> (r: Option<Option<String>>)
        ensures
            r.deep_view() == self@.device(),
    {
        match self {
            Reply::Device(d) => d,
            _ => None,
        }
    }

    pub fn memory(self) -> (r: Option<(u64, u64)>)
        ensures
            r == self@.memory(),
    {
        match self {
            Reply::Memory(m) => m,
            _ => None,
        }
    }
}

/// All that a probe may do: end with a result, or put a request and go on as the answer has it.
pub enum Plan<R> {
    Done(R),
    Ask(Request, spec_fn(Answer) -> Plan<R>),
}

impl<R> Plan<R> {
    /// What is left of the plan once its request has been answered.
    pub open spec fn after(self, answer: Answer) -> Plan<R> {
        match self {
            Plan::Done(_) => self,
            Plan::Ask(_, then) => then(answer),
        }
    }
}

/// First `plan`, then what `then` makes of its result.
pub open spec fn bind<A, B>(plan: Plan<A>, then: spec_fn(A) -> Plan<B>) -> Plan<B>
    decreases plan,
{
    match plan {
        Plan::Done(a) => then(a),
        Plan::Ask(q, next) => Plan::Ask(q, |answer: Answer| bind(next(answer), then)),
    }
}

/// The result of a plan where `world` answers every request.
pub open spec fn run<R>(plan: Plan<R>, world: spec_fn(Request) -> Answer) -> R
    decreases plan,
{
    match plan {
        Plan::Done(r) => r,
        Plan::Ask(q, next) => run(next(world(q)), world),
    }
}

/// The number of requests that a plan puts where `world` answers every one.
pub open spec fn requests<R>(plan: Plan<R>, world: spec_fn(Request) -> Answer) -> nat
    decreases plan,
{
    match plan {
        Plan::Done(_) => 0,
        Plan::Ask(q, next) => 1 + requests(next(world(q)), world),
    }
}

/// Running one plan and then another is running the two in turn.
pub proof fn run_bind<A, B>(
    plan: Plan<A>,
    then: spec_fn(A) -> Plan<B>,
    world: spec_fn(Request) -> Answer,
)
    ensures
        run(bind(plan, then), world) == run(then(run(plan, world)), world),
    decreases plan,
{
    match plan {
        Plan::Done(_) => {},
        Plan::Ask(q, next) => {
            run_bind(next(world(q)), then, world);
        },
    }
}

/// Answering the request of a plan as `world` does leaves its result there as it was, and one
/// request fewer to put.
pub proof fn answering_keeps_the_result<R>(plan: Plan<R>, world: spec_fn(Request) -> Answer)
    ensures
        plan matches Plan::Ask(q, _) ==> {
            &&& run(plan.after(world(q)), world) == run(plan, world)
            &&& requests(plan.after(world(q)), world) + 1 == requests(plan, world)
        },
{
}

/// Where a probe stands: it waits for the reply to a query, or it has its result.
pub enum Step<P, R> {
    Ask(Query, P),
    Done(R),
}

/// A search that waits for the reply to its last query.
pub trait Probe: Sized {
    type Found: View;

    /// What the probe does from here on, its last query included.
    spec fn plan(&self) -> Plan<<Self::Found as View>::V>;

    /// A probe waits for a reply.
    proof fn waits(&self)
        ensures
            self.plan() is Ask,
    ;

    /// Goes on with the reply to the last query.
    fn resume(self, reply: Reply) -> (r: Step<Self, Self::Found>)
        ensures
            match r {
                Step::Ask(q, p) => {
                    &&& p.plan() == self.plan().after(reply@)
                    &&& p.plan() matches Plan::Ask(request, _) && request == q@
                },
                Step::Done(found) => self.plan().after(reply@) == Plan::<
                    <Self::Found as View>::V,
                >::Done(found@),
            },
    ;
}

/// What is done from this step on.
pub open spec fn plan_of<P: Probe>(step: Step<P, P::Found>) -> Plan<<P::Found as View>::V> {
    match step {
        Step::Ask(_, p) => p.plan(),
        Step::Done(found) => Plan::Done(found@),
    }
}

/// `query` is the first of `plan`, and `probe` waits for the reply to it.
pub open spec fn asks<P: Probe>(
    query: Query,
    probe: P,
    plan: Plan<<P::Found as View>::V>,
) -> bool {
    &&& probe.plan() == plan
    &&& plan matches Plan::Ask(request, _) && request == query@
}

/// The step is the one that `plan` begins with.
pub open spec fn begins<P: Probe>(
    step: Step<P, P::Found>,
    plan: Plan<<P::Found as View>::V>,
) -> bool {
    match step {
        Step::Ask(query, probe) => asks(query, probe, plan),
        Step::Done(found) => plan == Plan::<<P::Found as View>::V>::Done(found@),
    }
}

/// What is left of `plan` once these answers have been given in turn.
pub open spec fn left_after<R>(plan: Plan<R>, answers: Seq<Answer>) -> Plan<R>
    decreases answers.len(),
{
    if answers.len() == 0 {
        plan
    } else {
        left_after(plan, answers.drop_last()).after(answers.last())
    }
}

/// These answers are replies that `perform` gave to the requests of `plan`, put in turn.
pub open spec fn obtained<R, F: Fn(Query) -> Reply>(
    perform: F,
    plan: Plan<R>,
    answers: Seq<Answer>,
) -> bool
    decreases answers.len(),
{
    answers.len() > 0 ==> {
        &&& obtained(perform, plan, answers.drop_last())
        &&& left_after(plan, answers.drop_last()) matches Plan::Ask(request, _)
        &&& exists|q: Query, r: Reply| #[trigger]
            perform.ensures((q,), r) && q@ == request && r@ == answers.last()
    }
}

/// Every reply that `perform` gives is the answer of `world`.
pub open spec fn speaks_for<F: Fn(Query) -> Reply>(
    perform: F,
    world: spec_fn(Request) -> Answer,
) -> bool {
    forall|q: Query, r: Reply| #[trigger] perform.ensures((q,), r) ==> r@ == world(q@)
}

/// Takes a search to its end: puts each query to `perform` and goes on with the reply.
///
/// The search always ends. Its result is the one that its plan has for the replies that came, and
/// where every reply is that of one `world`, it is the result of the plan in that world.
pub fn follow<P: Probe, F: Fn(Query) -> Reply>(first: Step<P, P::Found>, perform: F) -> (found:
    P::Found)
    requires
        forall|q: Query| perform.requires((q,)),
        begins(first, plan_of(first)),
    ensures
        exists|answers: Seq<Answer>| #[trigger]
            left_after(plan_of(first), answers) == Plan::<<P::Found as View>::V>::Done(found@)
                && obtained(perform, plan_of(first), answers),
        forall|world: spec_fn(Request) -> Answer| #[trigger]
            speaks_for(perform, world) ==> found@ == run(plan_of(first), world),
{
    let ghost whole = plan_of(first);
    let ghost mut rest = whole;
    let ghost mut given: Seq<Answer> = Seq::empty();
    let mut step = first;
    loop
        invariant
            forall|q: Query| perform.requires((q,)),
            begins(step, rest),
            rest == left_after(whole, given),
            obtained(perform, whole, given),
            whole == plan_of(first),
            forall|world: spec_fn(Request) -> Answer| #[trigger]
                speaks_for(perform, world) ==> run(rest, world) == run(whole, world),
        decreases rest,
    {
        match step {
            Step::Ask(query, probe) => {
                let reply = perform(query);
                proof {
                    rest = rest.after(reply@);
                    assert(given.push(reply@).drop_last() =~= given);
                    given = given.push(reply@);
                }
                step = probe.resume(reply);
            },
            Step::Done(found) => {
                return found;
            },
        }
    }
}

/// A query stands for the request with the same text or index.
pub proof fn queries_ask_what_they_say(text: String, index: u32)
    ensures
        Query::Exists(text)@ == Request::Exists(text@),
        Query::Read(text)@ == Request::Read(text@),
        Query::List(text)@ == Request::List(text@),
        Query::Float(text)@ == Request::Float(text@),
        Query::DeviceCount@ == Request::DeviceCount,
        Query::Device(index)@ == Request::Device(index),
        Query::DeviceLoad(index)@ == Request::DeviceLoad(index),
        Query::DeviceTemperature(index)@ == Request::DeviceTemperature(index),
        Query::DeviceMemory(index)@ == Request::DeviceMemory(index),
        Query::DevicePower(index)@ == Request::DevicePower(index),
{
}

/// What a reply holds is what is read from it, whatever it holds; of another kind of reply nothing
/// is read.
pub proof fn replies_tell_what_they_hold(reply: Reply)
    ensures
        forall|r: bool| #[trigger]
            call_ensures(Reply::flag, (reply,), r) ==> r == (reply matches Reply::Flag(b) && b),
        forall|r: Option<u32>| #[trigger]
            call_ensures(Reply::number, (reply,), r) ==> r == (match reply {
                Reply::Number(n) => n,
                _ => None,
            }),
        forall|r: Option<(u64, u64)>| #[trigger]
            call_ensures(Reply::memory, (reply,), r) ==> r == (match reply {
                Reply::Memory(m) => m,
                _ => None,
            }),
        forall|r: Option<String>| #[trigger]
            call_ensures(Reply::text, (reply,), r) ==> match (reply, r) {
                (Reply::Text(Some(t)), Some(s)) => s@ == t@,
                (Reply::Text(Some(_)), None) => false,
                (_, r) => r is None,
            },
        forall|r: Option<Vec<String>>| #[trigger]
            call_ensures(Reply::names, (reply,), r) ==> match (reply, r) {
                (Reply::Names(Some(n)), Some(v)) => v.len() == n.len() && forall|i: int|
                    0 <= i < v.len() ==> (#[trigger] v[i])@ == n[i]@,
                (Reply::Names(Some(_)), None) => false,
                (_, r) => r is None,
            },
        forall|r: Option<Option<String>>| #[trigger]
            call_ensures(Reply::device, (reply,), r) ==> match (reply, r) {
                (Reply::Device(Some(Some(t))), Some(Some(s))) => s@ == t@,
                (Reply::Device(Some(Some(_))), _) => false,
                (Reply::Device(Some(None)), r) => r == Some(None::<String>),
                (_, r) => r is None,
            },
{
    assert forall|r: Option<Vec<String>>| #[trigger]
        call_ensures(Reply::names, (reply,), r) implies match (reply, r) {
        (Reply::Names(Some(n)), Some(v)) => v.len() == n.len() && forall|i: int|
            0 <= i < v.len() ==> (#[trigger] v[i])@ == n[i]@,
        (Reply::Names(Some(_)), None) => false,
        (_, r) => r is None,
    } by {
        if let (Reply::Names(Some(n)), Some(v)) = (reply, r) {
            assert(v.deep_view() == n.deep_view());
            assert forall|i: int| 0 <= i < v.len() implies (#[trigger] v[i])@ == n[i]@ by {
                assert(v.deep_view()[i] == n.deep_view()[i]);
            }
        }
    }
}

/// A reply stands for the answer with the same contents, and an answer tells its contents.
pub proof fn replies_stand_for_answers(
    flag: bool,
    text: Option<String>,
    names: Option<Vec<String>>,
    number: Option<u32>,
    device: Option<Option<String>>,
    memory: Option<(u64, u64)>,
)
    ensures
        Reply::Flag(flag)@ == Answer::Flag(flag),
        Reply::Text(text)@ == Answer::Text(text.deep_view()),
        Reply::Names(names)@ == Answer::Names(names.deep_view()),
        Reply::Number(number)@ == Answer::Number(number),
        Reply::Device(device)@ == Answer::Device(device.deep_view()),
        Reply::Memory(memory)@ == Answer::Memory(memory),
        Answer::Flag(flag).flag() == flag,
        forall|t: Option<Seq<char>>| #[trigger] Answer::Text(t).text() == t,
        forall|n: Option<Seq<Seq<char>>>| #[trigger] Answer::Names(n).names() == n,
        Answer::Number(number).number() == number,
        forall|d: Option<Option<Seq<char>>>| #[trigger] Answer::Device(d).device() == d,
        Answer::Memory(memory).memory() == memory,
        forall|a: Answer| #[trigger] a.flag() ==> a is Flag,
        forall|a: Answer| (#[trigger] a.text()) is Some ==> a is Text,
        forall|a: Answer| (#[trigger] a.names()) is Some ==> a is Names,
        forall|a: Answer| (#[trigger] a.number()) is Some ==> a is Number,
        forall|a: Answer| (#[trigger] a.device()) is Some ==> a is Device,
        forall|a: Answer| (#[trigger] a.memory()) is Some ==> a is Memory,
{
}

/// A plan that is done has its result; any other has the result of what the answer to its request
/// leaves of it.
pub proof fn run_in_turn<R>(
    result: R,
    request: Request,
    then: spec_fn(Answer) -> Plan<R>,
    world: spec_fn(Request) -> Answer,
)
    ensures
        run(Plan::Done(result), world) == result,
        run(Plan::Ask(request, then), world) == run(then(world(request)), world),
{
}

} // verus!
