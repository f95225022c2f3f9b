//! The floating-point unit behind the interpreter.
//!
//! The library holds a float as the bit pattern of an IEEE 754 double and
//! leaves the arithmetic on such patterns to an implementation of `Host`.
//! Nothing is taken for granted of what a host returns. Each call is recorded, in
//! order, with what was asked and what came back; the contracts of the
//! interpreter say what is asked and what is computed from the answers, for
//! every sequence of replies that continues the record.

use vstd::prelude::*;

verus! {

/// How two floats compare. `Unordered` is the outcome where either is NaN.
#[derive(Debug, Clone, Copy, PartialEq, Eq, Structural)]
pub enum FloatOrder {
    Less,
    Equal,
    Greater,
    Unordered,
}

/// A floating-point operation of one operand.
#[derive(Debug, Clone, Copy, PartialEq, Eq, Structural)]
pub enum FloatUnary {
    Negate,
    Abs,
    Floor,
    Ceil,
    Round,
    Sqrt,
}

/// A floating-point operation of two operands.
#[derive(Debug, Clone, Copy, PartialEq, Eq, Structural)]
pub enum FloatBinary {
    Add,
    Sub,
    Mul,
    Div,
    Rem,
    Min,
    Max,
    Pow,
}

/// Floating-point arithmetic on bit patterns of IEEE 754 doubles.
pub trait Host {
    /// `op` applied to `x`.
    fn unary(&self, op: FloatUnary, x: u64) -> u64;

    /// `op` applied to `a` and `b`.
    fn binary(&self, op: FloatBinary, a: u64, b: u64) -> u64;

    /// `x` raised to the integer power `n`.
    fn powi(&self, x: u64, n: i32) -> u64;

    /// How `a` compares to `b`.
    fn compare(&self, a: u64, b: u64) -> FloatOrder;

    /// The float nearest to `i`.
    fn from_int(&self, i: i64) -> u64;

    /// `x` cut off toward zero, and brought into the 64-bit range.
    fn to_int(&self, x: u64) -> i64;

    /// The float that a decimal text denotes.
    fn parse(&self, text: &str) -> Option<u64>;

    /// The text of `x`.
    fn format(&self, x: u64) -> String;
}

/// What a host is asked.
pub ghost enum Request {
    Unary(FloatUnary, u64),
    Binary(FloatBinary, u64, u64),
    Powi(u64, i32),
    Compare(u64, u64),
    FromInt(i64),
    ToInt(u64),
    Parse(Seq<char>),
    Format(u64),
}

/// What a host answers.
pub ghost enum Answer {
    Bits(u64),
    Int(i64),
    Order(FloatOrder),
    Parsed(Option<u64>),
    Text(Seq<char>),
}

/// One call of a host: what was asked, and what came back.
pub ghost struct Reply {
    pub request: Request,
    pub answer: Answer,
}

/// The call that asked `request` and was answered `answer`.
pub open spec fn reply(request: Request, answer: Answer) -> Reply {
    Reply { request, answer }
}

/// The replies `o` start with the recorded replies `log`.
pub open spec fn agrees(log: Seq<Reply>, o: Seq<Reply>) -> bool {
    &&& log.len() <= o.len()
    &&& forall|i: int| 0 <= i < log.len() ==> log[i] == #[trigger] o[i]
}

/// The bit pattern that the host gave at `at`, asked `request`. Where the
/// call at `at` asked something else, this is zero.
pub open spec fn bits_at(o: Seq<Reply>, at: int, request: Request) -> u64 {
    match o[at].answer {
        Answer::Bits(b) => if o[at].request == request {
            b
        } else {
            0
        },
        _ => 0,
    }
}

/// The integer that the host gave at `at`, asked `request`.
pub open spec fn int_at(o: Seq<Reply>, at: int, request: Request) -> i64 {
    match o[at].answer {
        Answer::Int(i) => if o[at].request == request {
            i
        } else {
            0
        },
        _ => 0,
    }
}

/// The ordering that the host gave at `at`, asked `request`.
pub open spec fn order_at(o: Seq<Reply>, at: int, request: Request) -> FloatOrder {
    match o[at].answer {
        Answer::Order(order) => if o[at].request == request {
            order
        } else {
            FloatOrder::Unordered
        },
        _ => FloatOrder::Unordered,
    }
}

/// The outcome of parsing that the host gave at `at`, asked `request`.
pub open spec fn parsed_at(o: Seq<Reply>, at: int, request: Request) -> Option<u64> {
    match o[at].answer {
        Answer::Parsed(p) => if o[at].request == request {
            p
        } else {
            None
        },
        _ => None,
    }
}

/// The text that the host gave at `at`, asked `request`.
pub open spec fn text_at(o: Seq<Reply>, at: int, request: Request) -> Seq<char> {
    match o[at].answer {
        Answer::Text(t) => if o[at].request == request {
            t
        } else {
            Seq::empty()
        },
        _ => Seq::empty(),
    }
}

/// Replies that continue a record with one more reply continue the record
/// without it, and hold that reply next.
pub proof fn lemma_agrees_push(log: Seq<Reply>, reply: Reply, o: Seq<Reply>)
    requires
        agrees(log.push(reply), o),
    ensures
        agrees(log, o),
        log.len() < o.len(),
        o[log.len() as int] == reply,
{
    let longer = log.push(reply);
    assert(longer[log.len() as int] == o[log.len() as int]);
    assert forall|i: int| 0 <= i < log.len() implies log[i] == #[trigger] o[i] by {
        assert(longer[i] == o[i]);
    }
}

/// A host together with the record of its replies.
pub struct Recorded<H: Host> {
    host: H,
    log: Ghost<Seq<Reply>>,
}

impl<H: Host> Recorded<H> {
    /// The replies given so far.
    pub closed spec fn log(&self) -> Seq<Reply> {
        self.log@
    }

    /// How many replies were given so far.
    pub open spec fn cursor(&self) -> int {
        self.log().len() as int
    }

    /// `self` is `before` after one more reply, `reply`.
    pub open spec fn replied(&self, before: &Self, reply: Reply) -> bool {
        &&& self.log() == before.log().push(reply)
        &&& forall|o: Seq<Reply>| #[trigger]
            agrees(self.log(), o) ==> agrees(before.log(), o) && before.cursor() < o.len()
                && o[before.cursor()] == reply
    }

    /// A host with an empty record.
    pub fn new(host: H) -> (r: Self)
        ensures
            r.log() == Seq::<Reply>::empty(),
    {
        Recorded { host, log: Ghost(Seq::empty()) }
    }

    proof fn lemma_replied(&self, before: &Self, reply: Reply)
        requires
            self.log() == before.log().push(reply),
        ensures
            self.replied(before, reply),
    {
        assert forall|o: Seq<Reply>| #[trigger] agrees(self.log(), o) implies agrees(
            before.log(),
            o,
        ) && before.cursor() < o.len() && o[before.cursor()] == reply by {
            lemma_agrees_push(before.log(), reply, o);
        }
    }

    /// Asks the host for `op` of `x`.
    pub fn unary(&mut self, op: FloatUnary, x: u64) -> (r: u64)
        ensures
            final(self).replied(old(self), reply(Request::Unary(op, x), Answer::Bits(r))),
    {
        let r = self.host.unary(op, x);
        self.log = Ghost(self.log@.push(reply(Request::Unary(op, x), Answer::Bits(r))));
        proof {
            self.lemma_replied(old(self), reply(Request::Unary(op, x), Answer::Bits(r)));
        }
        r
    }

    /// Asks the host for `op` of `a` and `b`.
    pub fn binary(&mut self, op: FloatBinary, a: u64, b: u64) -> (r: u64)
        ensures
            final(self).replied(old(self), reply(Request::Binary(op, a, b), Answer::Bits(r))),
    {
        let r = self.host.binary(op, a, b);
        self.log = Ghost(self.log@.push(reply(Request::Binary(op, a, b), Answer::Bits(r))));
        proof {
            self.lemma_replied(old(self), reply(Request::Binary(op, a, b), Answer::Bits(r)));
        }
        r
    }

    /// Asks the host for `x` raised to the integer power `n`.
    pub fn powi(&mut self, x: u64, n: i32) -> (r: u64)
        ensures
            final(self).replied(old(self), reply(Request::Powi(x, n), Answer::Bits(r))),
    {
        let r = self.host.powi(x, n);
        self.log = Ghost(self.log@.push(reply(Request::Powi(x, n), Answer::Bits(r))));
        proof {
            self.lemma_replied(old(self), reply(Request::Powi(x, n), Answer::Bits(r)));
        }
        r
    }

    /// Asks the host how `a` compares to `b`.
    pub fn compare(&mut self, a: u64, b: u64) -> (r: FloatOrder)
        ensures
            final(self).replied(old(self), reply(Request::Compare(a, b), Answer::Order(r))),
    {
        let r = self.host.compare(a, b);
        self.log = Ghost(self.log@.push(reply(Request::Compare(a, b), Answer::Order(r))));
        proof {
            self.lemma_replied(old(self), reply(Request::Compare(a, b), Answer::Order(r)));
        }
        r
    }

    /// Asks the host for the float of an integer.
    pub fn from_int(&mut self, i: i64) -> (r: u64)
        ensures
            final(self).replied(old(self), reply(Request::FromInt(i), Answer::Bits(r))),
    {
        let r = self.host.from_int(i);
        self.log = Ghost(self.log@.push(reply(Request::FromInt(i), Answer::Bits(r))));
        proof {
            self.lemma_replied(old(self), reply(Request::FromInt(i), Answer::Bits(r)));
        }
        r
    }

    /// Asks the host for the integer of a float.
    pub fn to_int(&mut self, x: u64) -> (r: i64)
        ensures
            final(self).replied(old(self), reply(Request::ToInt(x), Answer::Int(r))),
    {
        let r = self.host.to_int(x);
        self.log = Ghost(self.log@.push(reply(Request::ToInt(x), Answer::Int(r))));
        proof {
            self.lemma_replied(old(self), reply(Request::ToInt(x), Answer::Int(r)));
        }
        r
    }

    /// Asks the host to read a float.
    pub fn parse(&mut self, text: &str) -> (r: Option<u64>)
        ensures
            final(self).replied(old(self), reply(Request::Parse(text@), Answer::Parsed(r))),
    {
        let r = self.host.parse(text);
        self.log = Ghost(self.log@.push(reply(Request::Parse(text@), Answer::Parsed(r))));
        proof {
            self.lemma_replied(old(self), reply(Request::Parse(text@), Answer::Parsed(r)));
        }
        r
    }

    /// Asks the host for the text of a float.
    pub fn format(&mut self, x: u64) -> (r: String)
        ensures
            final(self).replied(old(self), reply(Request::Format(x), Answer::Text(r@))),
    {
        let r = self.host.format(x);
        self.log = Ghost(self.log@.push(reply(Request::Format(x), Answer::Text(r@))));
        proof {
            self.lemma_replied(old(self), reply(Request::Format(x), Answer::Text(r@)));
        }
        r
    }
}

} // verus!
