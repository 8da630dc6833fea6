//! The session with the host: how a request is framed, how many reply lines each
//! kind of command owes, where each reply line goes, and the result sets of the
//! last structured query.
//!
//! The session does no I/O. A command method clears the previous results and
//! returns the line to send; the caller then hands over reply lines with
//! `take_reply` for as long as `awaiting_reply` holds.
use vstd::prelude::*;
use vstd::string::*;

use crate::dump::{dump_arrays, dump_singles};
use crate::table::NameTable;

verus! {

/// The kinds of command the host understands.
#[derive(PartialEq, Eq, Structural, Clone, Copy, Debug)]
pub enum Command {
    VerboseOn,
    VerboseOff,
    SuppressOn,
    SuppressOff,
    Pause,
    Mouse,
    Com,
    Aux,
    GetEnvironment,
    Closedown,
}

/// Reply lines that an auxiliary command owes: status and read answer, with the
/// command answer mirroring the read answer. Hosts are not known to agree here
/// (some may send a third line, the command answer); confirm against the host
/// in use. With 3, the third line becomes the command answer.
pub const AUX_REPLY_LINES: usize = 2;

pub open spec fn reply_lines(c: Command) -> nat {
    match c {
        Command::Pause => 3,
        Command::Mouse => 3,
        Command::Com => 2,
        Command::Aux => AUX_REPLY_LINES as nat,
        _ => 0,
    }
}

/// Number of reply lines that a command of kind `c` owes.
pub fn reply_arity(c: Command) -> (r: usize)
    ensures
        r == reply_lines(c),
{
    match c {
        Command::Pause => 3,
        Command::Mouse => 3,
        Command::Com => 2,
        Command::Aux => AUX_REPLY_LINES,
        _ => 0,
    }
}

pub open spec fn tag(c: Command) -> Seq<char> {
    match c {
        Command::VerboseOn => "VON"@,
        Command::VerboseOff => "VOF"@,
        Command::SuppressOn => "SU_ON"@,
        Command::SuppressOff => "SU_OFF"@,
        Command::Pause => "PAUSE"@,
        Command::Mouse => "MOUSE"@,
        Command::Com => "COM"@,
        Command::Aux => "AUX"@,
        Command::GetEnvironment => "GETENVIRONMENT"@,
        Command::Closedown => "CLOSEDOWN"@,
    }
}

/// The name of a command kind on the wire.
pub fn command_tag(c: Command) -> (r: &'static str)
    ensures
        r@ == tag(c),
{
    match c {
        Command::VerboseOn => "VON",
        Command::VerboseOff => "VOF",
        Command::SuppressOn => "SU_ON",
        Command::SuppressOff => "SU_OFF",
        Command::Pause => "PAUSE",
        Command::Mouse => "MOUSE",
        Command::Com => "COM",
        Command::Aux => "AUX",
        Command::GetEnvironment => "GETENVIRONMENT",
        Command::Closedown => "CLOSEDOWN",
    }
}

/// A request on the wire: the prefix, the command's name, a space, the payload and
/// a line feed.
pub open spec fn request_of(c: Command, payload: Seq<char>) -> Seq<char> {
    "@%#%@"@ + tag(c) + " "@ + payload + "\n"@
}

/// Frames a request of kind `c` carrying `payload`.
pub fn frame_request(c: Command, payload: &str) -> (r: String)
    ensures
        r@ == request_of(c, payload@),
{
    let mut r = String::from_str("@%#%@");
    r.append(command_tag(c));
    r.append(" ");
    r.append(payload);
    r.append("\n");
    r
}

/// What a session holds, as plain values.
pub struct SessionModel {
    pub status: Seq<char>,
    pub readans: Seq<char>,
    pub comans: Seq<char>,
    pub mouseans: Seq<char>,
    pub pausans: Seq<char>,
    pub singles: Map<Seq<char>, Seq<char>>,
    pub arrays: Map<Seq<char>, Seq<Seq<char>>>,
    /// The command whose reply lines are still owed, if any.
    pub awaiting: Option<Command>,
    /// How many of its reply lines have arrived.
    pub received: nat,
}

/// A fresh session: every result empty, nothing owed.
pub open spec fn initial_model() -> SessionModel {
    SessionModel {
        status: Seq::empty(),
        readans: Seq::empty(),
        comans: Seq::empty(),
        mouseans: Seq::empty(),
        pausans: Seq::empty(),
        singles: Map::empty(),
        arrays: Map::empty(),
        awaiting: None,
        received: 0,
    }
}

/// After a command of kind `c` is sent: every result cleared, its replies owed.
pub open spec fn sent(c: Command) -> SessionModel {
    SessionModel {
        awaiting: if reply_lines(c) > 0 {
            Some(c)
        } else {
            None
        },
        ..initial_model()
    }
}

/// Where a reply line goes: the first is the status, the second the read answer
/// (mirrored into the command answer for a generic or auxiliary command), the
/// third the pause, mouse or command answer.
pub open spec fn assign(m: SessionModel, c: Command, i: nat, line: Seq<char>) -> SessionModel {
    if i == 0 {
        SessionModel { status: line, ..m }
    } else if i == 1 {
        if c == Command::Com || c == Command::Aux {
            SessionModel { readans: line, comans: line, ..m }
        } else {
            SessionModel { readans: line, ..m }
        }
    } else {
        match c {
            Command::Pause => SessionModel { pausans: line, ..m },
            Command::Mouse => SessionModel { mouseans: line, ..m },
            Command::Aux => SessionModel { comans: line, ..m },
            _ => m,
        }
    }
}

/// After a reply line arrives.
pub open spec fn replied(m: SessionModel, line: Seq<char>) -> SessionModel {
    match m.awaiting {
        None => m,
        Some(c) => {
            let a = assign(m, c, m.received, line);
            if m.received + 1 >= reply_lines(c) {
                SessionModel { awaiting: None, received: 0, ..a }
            } else {
                SessionModel { received: m.received + 1, ..a }
            }
        },
    }
}

/// Lines from the front of `q` taken as replies while some are owed: the session
/// after them, and how many were taken.
pub open spec fn fed(m: SessionModel, q: Seq<Seq<char>>) -> (SessionModel, nat)
    decreases q.len(),
{
    if m.awaiting is None || q.len() == 0 {
        (m, 0)
    } else {
        let r = fed(replied(m, q[0]), q.drop_first());
        (r.0, r.1 + 1)
    }
}

/// After the lines of a dump are read: both result sets replaced by theirs.
pub open spec fn loaded(m: SessionModel, lines: Seq<Seq<char>>) -> SessionModel {
    SessionModel { singles: dump_singles(lines), arrays: dump_arrays(lines), ..m }
}

/// Reply lines change no result set.
pub proof fn lemma_replies_keep_result_sets(m: SessionModel, q: Seq<Seq<char>>)
    ensures
        fed(m, q).0.singles == m.singles,
        fed(m, q).0.arrays == m.arrays,
    decreases q.len(),
{
    if m.awaiting is Some && q.len() > 0 {
        lemma_replies_keep_result_sets(replied(m, q[0]), q.drop_first());
    }
}

/// Of lines waiting on the transport, a command takes exactly the reply lines it
/// owes, or all of them if fewer are there; the rest stay for the next command.
pub proof fn lemma_command_takes_owed_lines(m: SessionModel, q: Seq<Seq<char>>)
    requires
        m.awaiting matches Some(c) ==> m.received < reply_lines(c),
    ensures
        match m.awaiting {
            None => fed(m, q).1 == 0,
            Some(c) => fed(m, q).1 == if q.len() < reply_lines(c) - m.received {
                q.len() as int
            } else {
                reply_lines(c) - m.received
            },
        },
    decreases q.len(),
{
    if m.awaiting is Some && q.len() > 0 {
        lemma_command_takes_owed_lines(replied(m, q[0]), q.drop_first());
    }
}

/// A pause takes three reply lines, however many wait: status, read answer and
/// pause answer, in that order.
pub proof fn lemma_pause_takes_three(q: Seq<Seq<char>>)
    requires
        q.len() >= 3,
    ensures
        fed(sent(Command::Pause), q).1 == 3,
        fed(sent(Command::Pause), q).0.awaiting is None,
        fed(sent(Command::Pause), q).0.status == q[0],
        fed(sent(Command::Pause), q).0.readans == q[1],
        fed(sent(Command::Pause), q).0.pausans == q[2],
{
    let q1 = q.drop_first();
    let q2 = q1.drop_first();
    let q3 = q2.drop_first();
    let m0 = sent(Command::Pause);
    let m1 = replied(m0, q[0]);
    let m2 = replied(m1, q1[0]);
    let m3 = replied(m2, q2[0]);
    assert(m3.awaiting is None);
    assert(fed(m3, q3) == (m3, 0nat));
    assert(fed(m2, q2) == (m3, 1nat));
    assert(fed(m1, q1) == (m3, 2nat));
    assert(fed(m0, q) == (m3, 3nat));
}

/// A fresh session holds empty results; after a generic command and its two reply
/// lines, the status and the read and command answers hold those lines and the
/// mouse and pause answers stay empty.
pub proof fn lemma_generic_command_fields(l0: Seq<char>, l1: Seq<char>)
    ensures
        initial_model().status.len() == 0,
        initial_model().readans.len() == 0,
        initial_model().comans.len() == 0,
        initial_model().mouseans.len() == 0,
        initial_model().pausans.len() == 0,
        fed(sent(Command::Com), seq![l0, l1]).0 == (SessionModel {
            status: l0,
            readans: l1,
            comans: l1,
            ..initial_model()
        }),
{
    let q = seq![l0, l1];
    let m0 = sent(Command::Com);
    let m1 = replied(m0, l0);
    let m2 = replied(m1, l1);
    assert(q.drop_first() =~= seq![l1]);
    assert(q.drop_first().drop_first() =~= Seq::<Seq<char>>::empty());
    assert(fed(m2, q.drop_first().drop_first()) == (m2, 0nat));
    assert(fed(m1, q.drop_first()) == (m2, 1nat));
    assert(fed(m0, q) == (m2, 2nat));
    assert(m2 == (SessionModel { status: l0, readans: l1, comans: l1, ..initial_model() }));
}

/// A structured query replaces both result sets: after a query whose dump has
/// `lines_b`, whatever an earlier query left, the sets are exactly those of
/// `lines_b`.
pub proof fn lemma_query_replaces_results(
    before: SessionModel,
    replies: Seq<Seq<char>>,
    lines_b: Seq<Seq<char>>,
)
    ensures
        loaded(fed(sent(Command::Com), replies).0, lines_b).singles == dump_singles(lines_b),
        loaded(fed(sent(Command::Com), replies).0, lines_b).arrays == dump_arrays(lines_b),
        forall|k: Seq<char>|
            before.singles.contains_key(k) && !dump_singles(lines_b).contains_key(k)
                ==> !loaded(fed(sent(Command::Com), replies).0, lines_b).singles.contains_key(k),
{
}

/// The state of one session with the host.
pub struct Genesis {
    pub comans: String,
    pub readans: String,
    pub status: String,
    pub mouseans: String,
    pub pausans: String,
    doinfo_single_values: NameTable<String>,
    doinfo_array_values: NameTable<Vec<String>>,
    awaiting: Option<Command>,
    received: usize,
}

impl Genesis {
    pub closed spec fn model(&self) -> SessionModel {
        SessionModel {
            status: self.status@,
            readans: self.readans@,
            comans: self.comans@,
            mouseans: self.mouseans@,
            pausans: self.pausans@,
            singles: self.doinfo_single_values.map(),
            arrays: self.doinfo_array_values.map(),
            awaiting: self.awaiting,
            received: self.received as nat,
        }
    }

    pub closed spec fn wf(&self) -> bool {
        &&& self.doinfo_single_values.wf()
        &&& self.doinfo_array_values.wf()
        &&& match self.awaiting {
            None => self.received == 0,
            Some(c) => self.received < reply_lines(c),
        }
    }

    pub fn new() -> (r: Genesis)
        ensures
            r.wf(),
            r.model() == initial_model(),
    {
        Genesis {
            comans: String::new(),
            readans: String::new(),
            status: String::new(),
            mouseans: String::new(),
            pausans: String::new(),
            doinfo_single_values: NameTable::new(),
            doinfo_array_values: NameTable::new(),
            awaiting: None,
            received: 0,
        }
    }

    /// Whether reply lines of the last command are still owed.
    pub fn awaiting_reply(&self) -> (r: bool)
        ensures
            r == (self.model().awaiting is Some),
    {
        self.awaiting.is_some()
    }

    /// Clears every result and returns the request for a command of kind `c`.
    pub fn send_command(&mut self, c: Command, payload: &str) -> (r: String)
        requires
            old(self).wf(),
            old(self).model().awaiting is None,
        ensures
            final(self).wf(),
            final(self).model() == sent(c),
            r@ == request_of(c, payload@),
    {
        self.status = String::new();
        self.readans = String::new();
        self.comans = String::new();
        self.pausans = String::new();
        self.mouseans = String::new();
        self.doinfo_single_values = NameTable::new();
        self.doinfo_array_values = NameTable::new();
        self.awaiting = if reply_arity(c) > 0 {
            Some(c)
        } else {
            None
        };
        self.received = 0;
        frame_request(c, payload)
    }

    /// Turns the host's verbose mode on.
    pub fn von(&mut self) -> (r: String)
        requires
            old(self).wf(),
            old(self).model().awaiting is None,
        ensures
            final(self).wf(),
            final(self).model() == sent(Command::VerboseOn),
            r@ == request_of(Command::VerboseOn, Seq::empty()),
    {
        proof {
            reveal_strlit("");
        }
        self.send_command(Command::VerboseOn, "")
    }

    /// Turns the host's verbose mode off.
    pub fn vof(&mut self) -> (r: String)
        requires
            old(self).wf(),
            old(self).model().awaiting is None,
        ensures
            final(self).wf(),
            final(self).model() == sent(Command::VerboseOff),
            r@ == request_of(Command::VerboseOff, Seq::empty()),
    {
        proof {
            reveal_strlit("");
        }
        self.send_command(Command::VerboseOff, "")
    }

    /// Turns suppression of the host's dialogs on.
    pub fn su_on(&mut self) -> (r: String)
        requires
            old(self).wf(),
            old(self).model().awaiting is None,
        ensures
            final(self).wf(),
            final(self).model() == sent(Command::SuppressOn),
            r@ == request_of(Command::SuppressOn, Seq::empty()),
    {
        proof {
            reveal_strlit("");
        }
        self.send_command(Command::SuppressOn, "")
    }

    /// Turns suppression of the host's dialogs off.
    pub fn su_off(&mut self) -> (r: String)
        requires
            old(self).wf(),
            old(self).model().awaiting is None,
        ensures
            final(self).wf(),
            final(self).model() == sent(Command::SuppressOff),
            r@ == request_of(Command::SuppressOff, Seq::empty()),
    {
        proof {
            reveal_strlit("");
        }
        self.send_command(Command::SuppressOff, "")
    }

    /// Asks the host to pause with a message; three reply lines follow.
    pub fn pause(&mut self, command: &str) -> (r: String)
        requires
            old(self).wf(),
            old(self).model().awaiting is None,
        ensures
            final(self).wf(),
            final(self).model() == sent(Command::Pause),
            r@ == request_of(Command::Pause, command@),
    {
        self.send_command(Command::Pause, command)
    }

    /// Asks the host for a mouse selection; three reply lines follow.
    pub fn mouse(&mut self, command: &str) -> (r: String)
        requires
            old(self).wf(),
            old(self).model().awaiting is None,
        ensures
            final(self).wf(),
            final(self).model() == sent(Command::Mouse),
            r@ == request_of(Command::Mouse, command@),
    {
        self.send_command(Command::Mouse, command)
    }

    /// Sends a generic command; two reply lines follow.
    pub fn com(&mut self, command: &str) -> (r: String)
        requires
            old(self).wf(),
            old(self).model().awaiting is None,
        ensures
            final(self).wf(),
            final(self).model() == sent(Command::Com),
            r@ == request_of(Command::Com, command@),
    {
        self.send_command(Command::Com, command)
    }

    /// Sends an auxiliary command.
    pub fn aux(&mut self, command: &str) -> (r: String)
        requires
            old(self).wf(),
            old(self).model().awaiting is None,
        ensures
            final(self).wf(),
            final(self).model() == sent(Command::Aux),
            r@ == request_of(Command::Aux, command@),
    {
        self.send_command(Command::Aux, command)
    }

    /// Asks the host for its environment, which it sends as `NAME=VALUE` lines up to a line starting with `END`.
    pub fn get_environment(&mut self) -> (r: String)
        requires
            old(self).wf(),
            old(self).model().awaiting is None,
        ensures
            final(self).wf(),
            final(self).model() == sent(Command::GetEnvironment),
            r@ == request_of(Command::GetEnvironment, Seq::empty()),
    {
        proof {
            reveal_strlit("");
        }
        self.send_command(Command::GetEnvironment, "")
    }

    /// Tells the host that the session ends.
    pub fn closedown(&mut self) -> (r: String)
        requires
            old(self).wf(),
            old(self).model().awaiting is None,
        ensures
            final(self).wf(),
            final(self).model() == sent(Command::Closedown),
            r@ == request_of(Command::Closedown, Seq::empty()),
    {
        proof {
            reveal_strlit("");
        }
        self.send_command(Command::Closedown, "")
    }

    /// Takes the next reply line of the command in progress.
    pub fn take_reply(&mut self, line: String)
        requires
            old(self).wf(),
            old(self).model().awaiting is Some,
        ensures
            final(self).wf(),
            final(self).model() == replied(old(self).model(), line@),
    {
        let c = match self.awaiting {
            Some(c) => c,
            None => { return ; },
        };
        let i = self.received;
        if i == 0 {
            self.status = line;
        } else if i == 1 {
            if c == Command::Com || c == Command::Aux {
                self.comans = line.clone();
            }
            self.readans = line;
        } else {
            match c {
                Command::Pause => {
                    self.pausans = line;
                },
                Command::Mouse => {
                    self.mouseans = line;
                },
                Command::Aux => {
                    self.comans = line;
                },
                _ => {},
            }
        }
        if i + 1 >= reply_arity(c) {
            self.awaiting = None;
            self.received = 0;
        } else {
            self.received = i + 1;
        }
    }

    /// Takes lines from the front of `queue` as replies for as long as some are
    /// owed, and returns how many it took; the rest stay for the next command.
    pub fn take_replies(&mut self, queue: &Vec<String>) -> (used: usize)
        requires
            old(self).wf(),
        ensures
            final(self).wf(),
            (final(self).model(), used as nat) == fed(old(self).model(), queue.deep_view()),
    {
        let ghost q = queue.deep_view();
        let ghost m0 = self.model();
        let mut i: usize = 0;
        proof {
            assert(q.skip(0) =~= q);
        }
        while i < queue.len() && self.awaiting_reply()
            invariant
                self.wf(),
                i <= queue.len(),
                q == queue.deep_view(),
                fed(m0, q).0 == fed(self.model(), q.skip(i as int)).0,
                fed(m0, q).1 == fed(self.model(), q.skip(i as int)).1 + i,
            decreases queue.len() - i,
        {
            let ghost before = self.model();
            self.take_reply(queue[i].clone());
            proof {
                assert(q.skip(i as int).drop_first() =~= q.skip(i + 1));
                assert(q.skip(i as int)[0] == queue[i as int]@);
            }
            i = i + 1;
        }
        proof {
            assert(q.skip(i as int).len() == q.len() - i);
        }
        i
    }

    /// Replaces both result sets with what the lines of a dump give.
    pub fn parse_info_file(&mut self, lines: &Vec<String>)
        requires
            old(self).wf(),
        ensures
            final(self).wf(),
            final(self).model() == loaded(old(self).model(), lines.deep_view()),
    {
        let ghost q = lines.deep_view();
        let mut singles: NameTable<String> = NameTable::new();
        let mut arrays: NameTable<Vec<String>> = NameTable::new();
        let mut i: usize = 0;
        while i < lines.len()
            invariant
                i <= lines.len(),
                q == lines.deep_view(),
                singles.wf(),
                arrays.wf(),
                singles.map() == dump_singles(q.take(i as int)),
                arrays.map() == dump_arrays(q.take(i as int)),
            decreases lines.len() - i,
        {
            proof {
                assert(q.take(i + 1).drop_last() =~= q.take(i as int));
                assert(q.take(i + 1).last() == lines[i as int]@);
            }
            match Genesis::parse_array_value(&lines[i]) {
                Some((k, v)) => {
                    arrays.insert(k, v);
                },
                None => {
                    match Genesis::parse_single_value(&lines[i]) {
                        Some((k, v)) => {
                            singles.insert(k, v);
                        },
                        None => {},
                    }
                },
            }
            i = i + 1;
        }
        proof {
            assert(q.take(lines.len() as int) =~= q);
        }
        self.doinfo_single_values = singles;
        self.doinfo_array_values = arrays;
    }

    /// The scalar value that the last structured query gave for `key`.
    pub fn get_info_single_value(&self, key: &str) -> (r: Option<&String>)
        requires
            self.wf(),
        ensures
            match r {
                Some(v) => self.model().singles.contains_key(key@) && self.model().singles[key@]
                    == v@,
                None => !self.model().singles.contains_key(key@),
            },
    {
        self.doinfo_single_values.get(key)
    }

    /// The list value that the last structured query gave for `key`.
    pub fn get_info_array_value(&self, key: &str) -> (r: Option<&Vec<String>>)
        requires
            self.wf(),
        ensures
            match r {
                Some(v) => self.model().arrays.contains_key(key@) && self.model().arrays[key@]
                    == v.deep_view(),
                None => !self.model().arrays.contains_key(key@),
            },
    {
        self.doinfo_array_values.get(key)
    }
    /// Every scalar value of the last structured query.
    pub fn info_single_values(&self) -> (r: &NameTable<String>)
        requires
            self.wf(),
        ensures
            r.wf(),
            r.map() == self.model().singles,
    {
        &self.doinfo_single_values
    }

    /// Every list value of the last structured query.
    pub fn info_array_values(&self) -> (r: &NameTable<Vec<String>>)
        requires
            self.wf(),
        ensures
            r.wf(),
            r.map() == self.model().arrays,
    {
        &self.doinfo_array_values
    }
}

/// The command methods under the host's upper-case names.
impl Genesis {
    #[allow(non_snake_case)]
    pub fn VON(&mut self) -> (r: String)
        requires
            old(self).wf(),
            old(self).model().awaiting is None,
        ensures
            final(self).wf(),
            final(self).model() == sent(Command::VerboseOn),
            r@ == request_of(Command::VerboseOn, Seq::empty()),
    {
        self.von()
    }

    #[allow(non_snake_case)]
    pub fn VOF(&mut self) -> (r: String)
        requires
            old(self).wf(),
            old(self).model().awaiting is None,
        ensures
            final(self).wf(),
            final(self).model() == sent(Command::VerboseOff),
            r@ == request_of(Command::VerboseOff, Seq::empty()),
    {
        self.vof()
    }

    #[allow(non_snake_case)]
    pub fn SU_ON(&mut self) -> (r: String)
        requires
            old(self).wf(),
            old(self).model().awaiting is None,
        ensures
            final(self).wf(),
            final(self).model() == sent(Command::SuppressOn),
            r@ == request_of(Command::SuppressOn, Seq::empty()),
    {
        self.su_on()
    }

    #[allow(non_snake_case)]
    pub fn SU_OFF(&mut self) -> (r: String)
        requires
            old(self).wf(),
            old(self).model().awaiting is None,
        ensures
            final(self).wf(),
            final(self).model() == sent(Command::SuppressOff),
            r@ == request_of(Command::SuppressOff, Seq::empty()),
    {
        self.su_off()
    }

    #[allow(non_snake_case)]
    pub fn PAUSE(&mut self, command: &str) -> (r: String)
        requires
            old(self).wf(),
            old(self).model().awaiting is None,
        ensures
            final(self).wf(),
            final(self).model() == sent(Command::Pause),
            r@ == request_of(Command::Pause, command@),
    {
        self.pause(command)
    }

    #[allow(non_snake_case)]
    pub fn MOUSE(&mut self, command: &str) -> (r: String)
        requires
            old(self).wf(),
            old(self).model().awaiting is None,
        ensures
            final(self).wf(),
            final(self).model() == sent(Command::Mouse),
            r@ == request_of(Command::Mouse, command@),
    {
        self.mouse(command)
    }

    #[allow(non_snake_case)]
    pub fn COM(&mut self, command: &str) -> (r: String)
        requires
            old(self).wf(),
            old(self).model().awaiting is None,
        ensures
            final(self).wf(),
            final(self).model() == sent(Command::Com),
            r@ == request_of(Command::Com, command@),
    {
        self.com(command)
    }

    #[allow(non_snake_case)]
    pub fn AUX(&mut self, command: &str) -> (r: String)
        requires
            old(self).wf(),
            old(self).model().awaiting is None,
        ensures
            final(self).wf(),
            final(self).model() == sent(Command::Aux),
            r@ == request_of(Command::Aux, command@),
    {
        self.aux(command)
    }
}

} // verus!
