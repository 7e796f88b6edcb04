//! What the bare-metal guest makes of JS values and of its mailbox.
//!
//! The QuickJS engine runs beside this code. It hands over tagged values and
//! strings, and is told what to print, what to answer and how to exit.

use crate::bare_metal;
use crate::bytes;
use crate::layout::{HC_DB_READ, MAILBOX_SIZE};
use vstd::prelude::*;

verus! {

/// QuickJS value: a 64-bit union, read as the tag says.
#[derive(Clone, Copy, Debug, PartialEq, Eq, Structural)]
pub struct JSValue {
    pub u: u64,
    pub tag: i64,
}

pub const JS_TAG_EXCEPTION: i64 = 6;

pub const JS_TAG_FLOAT64: i64 = 8;

pub const JS_TAG_UNDEFINED: i64 = 3;

pub const JS_TAG_STRING: i64 = -7;

impl JSValue {
    /// The number whose 64-bit floating-point representation is `bits`.
    pub fn new_float64(bits: u64) -> (v: JSValue)
        ensures
            v == (JSValue { u: bits, tag: JS_TAG_FLOAT64 }),
    {
        JSValue { u: bits, tag: JS_TAG_FLOAT64 }
    }

    /// `undefined`.
    pub fn undefined() -> (v: JSValue)
        ensures
            v == (JSValue { u: 0, tag: JS_TAG_UNDEFINED }),
    {
        JSValue { u: 0, tag: JS_TAG_UNDEFINED }
    }
}

/// Is `val` an exception?
pub fn js_is_exception(val: JSValue) -> (r: bool)
    ensures
        r == (val.tag == JS_TAG_EXCEPTION),
{
    val.tag == JS_TAG_EXCEPTION
}

/// `Date.now()` in milliseconds, from the nanoseconds that the host gave.
pub fn date_now_ms(ns: u64) -> (ms: u64)
    ensures
        ms == ns as int / 1_000_000,
{
    ns / 1_000_000
}

/// `Math.random()` in units of 2^-53, from the number that the host gave: its
/// upper 53 bits.
pub fn random_fraction(r: u64) -> (numerator: u64)
    ensures
        numerator == r as int / 2048,
        numerator < 0x20_0000_0000_0000,
{
    r / 2048
}

/// An argument of `console.log` as contracts speak of it: nothing where it has
/// no text.
pub open spec fn text_of(arg: Option<Vec<u8>>) -> Seq<u8> {
    match arg {
        Some(t) => t@,
        None => Seq::empty(),
    }
}

/// The arguments joined by a space.
pub open spec fn joined(args: Seq<Option<Vec<u8>>>) -> Seq<u8>
    decreases args.len(),
{
    if args.len() == 0 {
        Seq::empty()
    } else if args.len() == 1 {
        text_of(args[0])
    } else {
        joined(args.drop_last()).push(32) + text_of(args.last())
    }
}

/// The line that `console.log` prints. An argument that cannot be made a
/// string prints as nothing; the space beside it stays.
pub fn console_line(args: &Vec<Option<Vec<u8>>>) -> (line: Vec<u8>)
    ensures
        line@ == joined(args@).push(10),
{
    let n: usize = args.len();
    let mut line: Vec<u8> = Vec::new();
    let mut i: usize = 0;
    assert(args@.take(0) =~= Seq::<Option<Vec<u8>>>::empty());
    while i < n
        invariant
            i <= n,
            n == args@.len(),
            line@ == joined(args@.take(i as int)),
        decreases n - i,
    {
        let ghost shown = args@.take(i + 1);
        assert(shown.drop_last() =~= args@.take(i as int));
        if i > 0 {
            line.push(32);
        }
        let ghost before = line@;
        match &args[i] {
            Some(t) => append(&mut line, t.as_slice()),
            None => {
                assert(before + Seq::<u8>::empty() =~= before);
            },
        }
        assert(line@ =~= joined(shown));
        i = i + 1;
    }
    assert(args@.take(n as int) =~= args@);
    line.push(10);
    line
}

/// Appends `more` to `out`.
fn append(out: &mut Vec<u8>, more: &[u8])
    ensures
        final(out)@ == old(out)@ + more@,
{
    let n: usize = more.len();
    let ghost before = out@;
    let mut i: usize = 0;
    assert(more@.take(0) =~= Seq::<u8>::empty());
    assert(before + Seq::<u8>::empty() =~= before);
    while i < n
        invariant
            i <= n,
            n == more@.len(),
            out@ == before + more@.take(i as int),
        decreases n - i,
    {
        out.push(more[i]);
        assert(out@ =~= before + more@.take(i + 1));
        i = i + 1;
    }
    assert(more@.take(n as int) =~= more@);
}

/// What `db.query` does with its arguments.
#[derive(Clone, Copy, Debug, PartialEq, Eq)]
pub enum DbQuery {
    /// Prints a message, if there is one, and returns `undefined`.
    Undefined { message: Option<&'static str> },
    /// The request is in the mailbox: ask the host with this hypercall number
    /// and request length.
    Ask { hypercall: u64, len: u64 },
}

/// The text of an optional message.
pub open spec fn message_view(m: Option<&'static str>) -> Option<Seq<char>> {
    match m {
        Some(s) => Some(s@),
        None => None,
    }
}

/// The request for a collection is put in `mailbox`, with a NUL behind it.
pub open spec fn with_request(mailbox: Seq<u8>, name: Seq<u8>) -> Seq<u8> {
    bytes::overlay(mailbox, 0, name.push(0))
}

/// `db.query` with `argc` arguments, the first of which has the given text:
/// asks for a collection. A missing argument, one without text, and a name
/// that does not fit the mailbox give `undefined` and leave the mailbox alone.
pub fn js_db_query(argc: i32, name: Option<&[u8]>, mailbox: &mut [u8]) -> (r: DbQuery)
    requires
        old(mailbox)@.len() == MAILBOX_SIZE,
    ensures
        match r {
            DbQuery::Ask { hypercall, len } => {
                &&& argc >= 1 && name is Some && name->0@.len() < MAILBOX_SIZE
                &&& hypercall == HC_DB_READ && len == name->0@.len()
                &&& final(mailbox)@ == with_request(old(mailbox)@, name->0@)
            },
            DbQuery::Undefined { message } => final(mailbox)@ == old(mailbox)@ && if argc < 1 {
                message_view(message) == Some("db.query: missing collection argument\n"@)
            } else if name is None {
                message is None
            } else {
                name->0@.len() >= MAILBOX_SIZE && message_view(message) == Some(
                    "db.query: collection name too long\n"@,
                )
            },
        },
{
    if argc < 1 {
        return DbQuery::Undefined { message: Some("db.query: missing collection argument\n") };
    }
    match name {
        None => DbQuery::Undefined { message: None },
        Some(text) => {
            let n: usize = text.len();
            if n >= MAILBOX_SIZE {
                return DbQuery::Undefined { message: Some("db.query: collection name too long\n") };
            }
            let ghost before = mailbox@;
            bytes::write_at(mailbox, 0, text);
            mailbox[n] = 0;
            assert(mailbox@ =~= with_request(before, text@));
            DbQuery::Ask { hypercall: HC_DB_READ, len: n as u64 }
        },
    }
}

/// The JSON text that `db.query` returns the value of.
pub open spec fn db_json(resp_len: u64, mailbox: Seq<u8>) -> Seq<u8> {
    if resp_len == 0 || resp_len >= MAILBOX_SIZE {
        bytes::ascii_bytes("[]"@)
    } else {
        mailbox.take(resp_len as int)
    }
}

/// The JSON text that `db.query` returns the value of, after the host answered
/// with `resp_len`: an empty array where there is no usable answer.
pub fn db_reply(resp_len: u64, mailbox: &[u8]) -> (json: Vec<u8>)
    requires
        mailbox@.len() == MAILBOX_SIZE,
    ensures
        json@ == db_json(resp_len, mailbox@),
{
    if resp_len == 0 || resp_len >= MAILBOX_SIZE as u64 {
        proof {
            reveal_strlit("[]");
        }
        vstd::slice::slice_to_vec(bytes::ascii("[]"))
    } else {
        let s = vstd::slice::slice_subrange(mailbox, 0, resp_len as usize);
        assert(s@ =~= mailbox@.take(resp_len as int));
        vstd::slice::slice_to_vec(s)
    }
}

/// How an evaluation went.
pub enum EvalEvent {
    /// The engine gave no runtime.
    NoRuntime,
    /// The engine gave no context.
    NoContext,
    /// The evaluation returned a value. `text` is the text of the exception it
    /// raised, or of the value where that is a string, if it has one.
    Returned { value: JSValue, text: Option<Vec<u8>> },
}

/// What the guest prints after an evaluation.
pub open spec fn eval_output(event: EvalEvent) -> Seq<u8> {
    match event {
        EvalEvent::NoRuntime => bytes::ascii_bytes("Failed to create JS runtime\n"@),
        EvalEvent::NoContext => bytes::ascii_bytes("Failed to create JS context\n"@),
        EvalEvent::Returned { value, text } => match text {
            None => Seq::empty(),
            Some(t) => if value.tag == JS_TAG_EXCEPTION {
                (bytes::ascii_bytes("Exception: "@) + t@).push(10)
            } else if value.tag == JS_TAG_STRING {
                t@.push(10)
            } else {
                Seq::empty()
            },
        },
    }
}

/// The exit code of an evaluation.
pub open spec fn eval_exit_code(event: EvalEvent) -> u64 {
    match event {
        EvalEvent::Returned { value, text } => if value.tag == JS_TAG_EXCEPTION {
            1
        } else {
            0
        },
        _ => 1,
    }
}

/// What the guest prints after an evaluation, and the code it exits with: a
/// string result is printed, any other value is not, and an exception is a
/// failure.
pub fn eval_js(event: &EvalEvent) -> (r: (Vec<u8>, u64))
    ensures
        r.0@ == eval_output(*event),
        r.1 == eval_exit_code(*event),
{
    proof {
        reveal_strlit("Failed to create JS runtime\n");
        reveal_strlit("Failed to create JS context\n");
        reveal_strlit("Exception: ");
    }
    match event {
        EvalEvent::NoRuntime => (
            vstd::slice::slice_to_vec(bytes::ascii("Failed to create JS runtime\n")),
            1,
        ),
        EvalEvent::NoContext => (
            vstd::slice::slice_to_vec(bytes::ascii("Failed to create JS context\n")),
            1,
        ),
        EvalEvent::Returned { value, text } => {
            let mut out: Vec<u8> = Vec::new();
            let failed = js_is_exception(*value);
            match text {
                None => {},
                Some(t) => {
                    if failed {
                        append(&mut out, bytes::ascii("Exception: "));
                        append(&mut out, t.as_slice());
                        out.push(10);
                        assert(out@ =~= eval_output(*event));
                    } else if value.tag == JS_TAG_STRING {
                        append(&mut out, t.as_slice());
                        out.push(10);
                        assert(out@ =~= eval_output(*event));
                    }
                },
            }
            (
                out,
                if failed {
                    1
                } else {
                    0
                },
            )
        },
    }
}

/// What a resumed guest finds in its mailbox.
pub enum GuestJob {
    /// No code: the guest says so and exits with code 0.
    Nothing { message: &'static str },
    /// Code to evaluate.
    Eval { code: Vec<u8> },
}

/// Reads the job of a resumed guest: the string in the mailbox.
pub fn guest_main(mailbox: &[u8]) -> (job: GuestJob)
    requires
        mailbox@.len() == MAILBOX_SIZE,
    ensures
        match job {
            GuestJob::Nothing { message } => bytes::until_nul(mailbox@).len() == 0 && message@
                == "No JS code in mailbox.\n"@,
            GuestJob::Eval { code } => code@ == bytes::until_nul(mailbox@) && code@.len() > 0,
        },
{
    let n: usize = bytes::nul_len(mailbox, 0, MAILBOX_SIZE);
    assert(mailbox@.subrange(0, MAILBOX_SIZE as int) =~= mailbox@);
    if n == 0 {
        return GuestJob::Nothing { message: "No JS code in mailbox.\n" };
    }
    GuestJob::Eval { code: vstd::slice::slice_to_vec(vstd::slice::slice_subrange(mailbox, 0, n)) }
}

// Laws

/// A query reaches the host and its answer reaches the script: what
/// `db.query` returns is the value of the host's answer for that collection.
pub proof fn law_query_gets_the_answer(
    s: bare_metal::VmView,
    mem: Seq<u8>,
    name: Seq<u8>,
    quiet: bool,
)
    requires
        bare_metal::has_mailbox(mem),
        name.len() < MAILBOX_SIZE,
    ensures
        ({
            let regs = bare_metal::HypercallRegs {
                x0: HC_DB_READ,
                x1: name.len() as u64,
                x2: 0,
                x3: 0,
            };
            let asked = bare_metal::with_mailbox(mem, name);
            let (o, s1, m1) = bare_metal::hypercall(s, asked, regs, quiet);
            &&& bare_metal::mailbox(asked) == with_request(bare_metal::mailbox(mem), name)
            &&& o is Resume
            &&& db_json(o->x0, bare_metal::mailbox(m1)) == bare_metal::db_answer(name)
        }),
{
    bare_metal::law_db_query(s, mem, name, quiet);
    reveal_strlit("[]");
    reveal_strlit("[{\"id\":1,\"name\":\"Alice\"},{\"id\":2,\"name\":\"Bob\"}]");
    reveal_strlit("[{\"id\":1,\"title\":\"Hello World\",\"author\":\"Alice\"}]");
    assert(bare_metal::mailbox(bare_metal::with_mailbox(mem, name)) =~= with_request(
        bare_metal::mailbox(mem),
        name,
    ));
}

/// The code that the host puts in the mailbox of a fork is the code that the
/// guest evaluates.
pub proof fn law_forked_code_is_evaluated(mem: Seq<u8>, code: Seq<u8>)
    requires
        bare_metal::has_mailbox(mem),
        code.len() < MAILBOX_SIZE,
        bytes::nul_free(code),
    ensures
        bytes::until_nul(bare_metal::mailbox(bare_metal::with_mailbox(mem, code))) == code,
{
    bare_metal::law_mailbox_round_trip(mem, code);
}

/// A line of `console.log` holds its arguments in order, one space between each
/// and the next, and nothing else.
pub proof fn law_arguments_are_joined_by_spaces(
    args: Seq<Option<Vec<u8>>>,
    arg: Option<Vec<u8>>,
)
    ensures
        joined(Seq::empty()).len() == 0,
        joined(seq![arg]) == text_of(arg),
        args.len() > 0 ==> joined(args.push(arg)) == joined(args) + seq![0x20u8] + text_of(arg),
        arg is None ==> text_of(arg).len() == 0,
        arg matches Some(t) ==> text_of(arg) == t@,
{
    if args.len() > 0 {
        assert(args.push(arg).drop_last() =~= args);
        assert(joined(args.push(arg)) =~= joined(args) + seq![0x20u8] + text_of(arg));
    }
}

/// What an evaluation shows and how it ends: a string (tag -7) is printed on a
/// line of its own, an exception (tag 6) likewise behind "Exception: " and as a
/// failure, any other value not at all; an engine that does not start is a
/// failure that is named.
pub proof fn law_how_evaluations_end(event: EvalEvent)
    ensures
        eval_exit_code(event) == (if event is Returned && event->value.tag != 6 {
            0u64
        } else {
            1u64
        }),
        event matches EvalEvent::Returned { value, text: Some(t) } ==> ({
            &&& value.tag == -7 ==> eval_output(event) == t@ + seq![10u8]
            &&& value.tag == 6 ==> eval_output(event) == bytes::ascii_bytes("Exception: "@) + t@
                + seq![10u8]
            &&& value.tag != -7 && value.tag != 6 ==> eval_output(event).len() == 0
        }),
        event matches EvalEvent::Returned { value, text: None } ==> eval_output(event).len() == 0,
        event is NoRuntime ==> eval_output(event) == bytes::ascii_bytes(
            "Failed to create JS runtime\n"@,
        ),
        event is NoContext ==> eval_output(event) == bytes::ascii_bytes(
            "Failed to create JS context\n"@,
        ),
{
    if let EvalEvent::Returned { value, text: Some(t) } = event {
        if value.tag == -7 {
            assert(eval_output(event) =~= t@ + seq![10u8]);
        } else if value.tag == 6 {
            assert(eval_output(event) =~= bytes::ascii_bytes("Exception: "@) + t@ + seq![10u8]);
        }
    }
}

/// The answer of a query is the first `resp_len` bytes of the mailbox; an answer
/// of no length, or of one that does not fit the mailbox with its NUL, counts as
/// the empty array.
pub proof fn law_which_answers_count(resp_len: u64, mailbox: Seq<u8>)
    requires
        mailbox.len() == 0x1_0000,
    ensures
        0 < resp_len < 0x1_0000 ==> db_json(resp_len, mailbox).len() == resp_len && db_json(
            resp_len,
            mailbox,
        ) + mailbox.skip(resp_len as int) == mailbox,
        resp_len == 0 || resp_len >= 0x1_0000 ==> db_json(resp_len, mailbox) == seq![
            '[' as u8,
            ']' as u8,
        ],
{
    reveal_strlit("[]");
    if 0 < resp_len < 0x1_0000 {
        assert(db_json(resp_len, mailbox) + mailbox.skip(resp_len as int) =~= mailbox);
    } else {
        assert(db_json(resp_len, mailbox) =~= seq!['[' as u8, ']' as u8]);
    }
}

/// A request is the name and a NUL at the start of the mailbox.
pub proof fn law_requests_are_strings(mailbox: Seq<u8>, name: Seq<u8>)
    requires
        mailbox.len() == 0x1_0000,
        name.len() < 0x1_0000,
        bytes::nul_free(name),
    ensures
        bytes::until_nul(with_request(mailbox, name)) == name,
        with_request(mailbox, name).len() == mailbox.len(),
        with_request(mailbox, name).skip(name.len() as int + 1) == mailbox.skip(name.len() as int + 1),
{
    let m = with_request(mailbox, name);
    assert forall|i: int| 0 <= i < name.len() implies m[i] != 0 by {
        assert(m[i] == name[i]);
    }
    bytes::lemma_until_nul(m, name.len() as int);
    assert(m.take(name.len() as int) =~= name);
    assert(m.skip(name.len() as int + 1) =~= mailbox.skip(name.len() as int + 1));
}

} // verus!
