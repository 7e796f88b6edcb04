//! Messages between the host and the Linux guest.
//!
//! One shared region holds an inbox, which the host fills before it resumes a
//! forked VM, and an outbox, which the guest's init process fills before it
//! powers off. Both hold a NUL-terminated string.

use crate::bytes;
use crate::layout::{LINUX_INBOX_SIZE, LINUX_OUTBOX_SIZE, LINUX_SHARED_SIZE};
use vstd::prelude::*;

verus! {

/// Sentinel that init writes to the inbox when the VM is ready for snapshot:
/// "CONVEX_READY".
pub const CONVEX_READY: [u8; 12] = [67, 79, 78, 86, 69, 88, 95, 82, 69, 65, 68, 89];

/// Runner output that is kept: the rest of the outbox is left for notices.
pub const MAX_OUTPUT: usize = 0x7F_FFE0;

/// The string in the inbox.
pub open spec fn inbox_text(shared: Seq<u8>) -> Seq<u8> {
    bytes::until_nul(shared.subrange(0, LINUX_INBOX_SIZE as int))
}

/// The string in the outbox.
pub open spec fn outbox_text(shared: Seq<u8>) -> Seq<u8> {
    bytes::until_nul(shared.subrange(LINUX_INBOX_SIZE as int, LINUX_SHARED_SIZE as int))
}

/// The shared region with `data` in the inbox.
pub open spec fn with_inbox(shared: Seq<u8>, data: Seq<u8>) -> Seq<u8> {
    bytes::overlay(shared, 0, data.push(0))
}

/// The shared region with `data` in the outbox, cut to what fits.
pub open spec fn with_outbox(shared: Seq<u8>, data: Seq<u8>) -> Seq<u8> {
    let kept = if data.len() < LINUX_OUTBOX_SIZE {
        data
    } else {
        data.take(LINUX_OUTBOX_SIZE - 1)
    };
    bytes::overlay(shared, LINUX_INBOX_SIZE as int, kept.push(0))
}

/// Init has signaled READY in `inbox`.
pub open spec fn holds_ready(inbox: Seq<u8>) -> bool {
    inbox.len() >= 12 && inbox.take(12) == CONVEX_READY@
}

/// Init still finds its own sentinel: the first 8 bytes are "CONVEX_R".
/// A single byte could match a message that happens to start alike.
pub open spec fn holds_ready_tag(inbox: Seq<u8>) -> bool {
    inbox.len() >= 8 && inbox.take(8) == CONVEX_READY@.take(8)
}

// The host's side

/// Writes a message to the inbox. A message that does not fit is refused.
pub fn write_inbox(shared: &mut [u8], data: &[u8]) -> (accepted: bool)
    requires
        old(shared)@.len() == LINUX_SHARED_SIZE,
    ensures
        accepted == (data@.len() < LINUX_INBOX_SIZE),
        final(shared)@ == (if accepted {
            with_inbox(old(shared)@, data@)
        } else {
            old(shared)@
        }),
{
    let n: usize = data.len();
    if n >= LINUX_INBOX_SIZE {
        return false;
    }
    bytes::write_at(shared, 0, data);
    shared[n] = 0;
    assert(shared@ =~= with_inbox(old(shared)@, data@));
    true
}

/// Reads what the guest left in the outbox.
pub fn read_outbox(shared: &[u8]) -> (out: &[u8])
    requires
        shared@.len() == LINUX_SHARED_SIZE,
    ensures
        out@ == outbox_text(shared@),
{
    let n: usize = bytes::nul_len(shared, LINUX_INBOX_SIZE, LINUX_OUTBOX_SIZE);
    vstd::slice::slice_subrange(shared, LINUX_INBOX_SIZE, LINUX_INBOX_SIZE + n)
}

/// What is printed of the outbox: its text, on lines of its own.
pub fn printed_outbox(out: &[u8]) -> (printed: Vec<u8>)
    ensures
        printed@ == (if out@.len() > 0 && out@.last() != 10 {
            out@.push(10)
        } else {
            out@
        }),
{
    let mut printed: Vec<u8> = vstd::slice::slice_to_vec(out);
    let n: usize = out.len();
    if n > 0 && out[n - 1] != 10 {
        printed.push(10);
    }
    printed
}

/// Has init signaled READY?
pub fn is_ready(inbox: &[u8]) -> (b: bool)
    requires
        inbox@.len() >= 12,
    ensures
        b == holds_ready(inbox@),
{
    same_prefix(inbox, 12)
}

/// Do the first `n` bytes of `s` match the sentinel?
fn same_prefix(s: &[u8], n: usize) -> (b: bool)
    requires
        n <= 12,
        n <= s@.len(),
    ensures
        b == (s@.take(n as int) == CONVEX_READY@.take(n as int)),
        n == 12 ==> CONVEX_READY@.take(12) == CONVEX_READY@,
{
    let magic = CONVEX_READY;
    assert(CONVEX_READY@.take(12) =~= CONVEX_READY@);
    let mut i: usize = 0;
    while i < n
        invariant
            i <= n <= 12,
            n <= s@.len(),
            magic@ == CONVEX_READY@,
            magic@.len() == 12,
            forall|j: int| 0 <= j < i ==> s@[j] == magic@[j],
        decreases n - i,
    {
        if s[i] != magic[i] {
            assert(s@.take(n as int)[i as int] != CONVEX_READY@.take(n as int)[i as int]);
            return false;
        }
        i = i + 1;
    }
    assert(s@.take(n as int) =~= CONVEX_READY@.take(n as int));
    true
}

// The side of the guest's init

/// Signals READY in the inbox.
pub fn write_ready(shared: &mut [u8])
    requires
        old(shared)@.len() == LINUX_SHARED_SIZE,
    ensures
        final(shared)@ == with_inbox(old(shared)@, CONVEX_READY@),
{
    let magic = CONVEX_READY;
    let accepted = write_inbox(shared, magic.as_slice());
}

/// Is the host's message still to come?
pub fn awaiting_message(shared: &[u8]) -> (b: bool)
    requires
        shared@.len() >= 8,
    ensures
        b == holds_ready_tag(shared@),
{
    same_prefix(shared, 8)
}

/// Reads the host's message.
pub fn read_inbox_str(shared: &[u8]) -> (msg: &[u8])
    requires
        shared@.len() == LINUX_SHARED_SIZE,
    ensures
        msg@ == inbox_text(shared@),
{
    let n: usize = bytes::nul_len(shared, 0, LINUX_INBOX_SIZE);
    vstd::slice::slice_subrange(shared, 0, n)
}

/// Writes `data` to the outbox, cut to what fits; an empty answer leaves the
/// outbox alone.
pub fn write_outbox(shared: &mut [u8], data: &[u8])
    requires
        old(shared)@.len() == LINUX_SHARED_SIZE,
    ensures
        final(shared)@ == (if data@.len() == 0 {
            old(shared)@
        } else {
            with_outbox(old(shared)@, data@)
        }),
{
    let n: usize = data.len();
    if n == 0 {
        return;
    }
    let kept: usize = if n < LINUX_OUTBOX_SIZE {
        n
    } else {
        LINUX_OUTBOX_SIZE - 1
    };
    bytes::write_at(shared, LINUX_INBOX_SIZE, vstd::slice::slice_subrange(data, 0, kept));
    shared[LINUX_INBOX_SIZE + kept] = 0;
    assert(data@.subrange(0, kept as int) =~= data@.take(kept as int));
    assert(n < LINUX_OUTBOX_SIZE ==> data@.take(kept as int) =~= data@);
    assert(shared@ =~= with_outbox(old(shared)@, data@));
}

/// Without a runner, init answers with the message itself.
pub fn echo_message(shared: &mut [u8], msg: &[u8])
    requires
        old(shared)@.len() == LINUX_SHARED_SIZE,
    ensures
        final(shared)@ == (if msg@.len() == 0 || msg@ == CONVEX_READY@ {
            old(shared)@
        } else {
            with_outbox(old(shared)@, msg@)
        }),
{
    if msg.len() == 12 {
        if same_prefix(msg, 12) {
            assert(msg@.take(12) =~= msg@);
            return;
        }
        assert(msg@.take(12) =~= msg@);
    }
    write_outbox(shared, msg);
}

/// Collects the runner's output in the outbox.
#[derive(Clone, Copy, Debug, PartialEq, Eq, Structural)]
pub struct OutboxWriter {
    /// Bytes in the outbox so far.
    pub total: usize,
    /// Output was dropped.
    pub truncated: bool,
}

/// The notice of dropped output.
pub open spec fn truncation_notice() -> Seq<u8> {
    bytes::ascii_bytes("\n[output truncated]\n"@)
}

/// The notice of a failed runner, with the last digit of its exit code.
pub open spec fn exit_notice(code: int) -> Seq<u8> {
    bytes::ascii_bytes("\n[runner exit "@).push((48 + code % 10) as u8) + bytes::ascii_bytes("]\n"@)
}

/// The wait status says that the runner exited by itself.
pub open spec fn exited_normally(status: u32) -> bool {
    status % 128 == 0
}

/// The exit code in a wait status.
pub open spec fn exit_code(status: u32) -> int {
    (status / 256) as int % 256
}

/// As much of `notice` as fits behind `total` bytes, with room for a NUL.
pub open spec fn fitted(total: int, notice: Seq<u8>) -> Seq<u8> {
    if notice.len() < LINUX_OUTBOX_SIZE - total - 1 {
        notice
    } else {
        notice.take(LINUX_OUTBOX_SIZE - total - 1)
    }
}

/// What is appended to output of `total` bytes: a notice if some of it was
/// dropped, and one if the runner failed.
pub open spec fn closing_notices(total: int, truncated: bool, status: u32) -> Seq<u8> {
    let first = if truncated {
        fitted(total, truncation_notice())
    } else {
        Seq::empty()
    };
    let second = if !exited_normally(status) || exit_code(status) != 0 {
        fitted(total + first.len(), exit_notice(exit_code(status)))
    } else {
        Seq::empty()
    };
    first + second
}

impl OutboxWriter {
    /// Room is left for the notices.
    pub open spec fn wf(self) -> bool {
        self.total <= MAX_OUTPUT
    }

    /// The writer and the shared region once `chunk` has been added.
    pub open spec fn absorbed(self, shared: Seq<u8>, chunk: Seq<u8>) -> (OutboxWriter, Seq<u8>) {
        let room = MAX_OUTPUT - self.total;
        let kept = if chunk.len() < room {
            chunk
        } else {
            chunk.take(room)
        };
        (
            OutboxWriter {
                total: (self.total + kept.len()) as usize,
                truncated: self.truncated || kept.len() < chunk.len(),
            },
            bytes::overlay(shared, LINUX_INBOX_SIZE + self.total, kept),
        )
    }

    /// An empty outbox.
    pub fn new() -> (w: Self)
        ensures
            w.total == 0,
            !w.truncated,
            w.wf(),
    {
        OutboxWriter { total: 0, truncated: false }
    }

    /// Adds what was read from the runner, as far as there is room. What does
    /// not fit is dropped, so that the runner never blocks on a full pipe.
    pub fn absorb(&mut self, shared: &mut [u8], chunk: &[u8])
        requires
            old(self).wf(),
            old(shared)@.len() == LINUX_SHARED_SIZE,
        ensures
            final(self).wf(),
            (*final(self), final(shared)@) == old(self).absorbed(old(shared)@, chunk@),
    {
        let n: usize = chunk.len();
        let room: usize = MAX_OUTPUT - self.total;
        let to_copy: usize = if n < room {
            n
        } else {
            room
        };
        bytes::write_at(
            shared,
            LINUX_INBOX_SIZE + self.total,
            vstd::slice::slice_subrange(chunk, 0, to_copy),
        );
        assert(chunk@.subrange(0, to_copy as int) =~= chunk@.take(to_copy as int));
        assert(n < room ==> chunk@.take(to_copy as int) =~= chunk@);
        self.total = self.total + to_copy;
        if to_copy < n {
            self.truncated = true;
        }
    }

    /// Appends the notices that are due and terminates the outbox. `status` is
    /// the runner's wait status.
    pub fn finish(&self, shared: &mut [u8], status: u32)
        requires
            self.wf(),
            old(shared)@.len() == LINUX_SHARED_SIZE,
        ensures
            final(shared)@ == bytes::overlay(
                old(shared)@,
                LINUX_INBOX_SIZE + self.total,
                closing_notices(self.total as int, self.truncated, status).push(0),
            ),
    {
        let mut tail: Vec<u8> = Vec::new();
        proof {
            reveal_strlit("\n[output truncated]\n");
            reveal_strlit("\n[runner exit ");
            reveal_strlit("]\n");
        }
        if self.truncated {
            append_fitted(&mut tail, self.total, bytes::ascii("\n[output truncated]\n"));
        }
        let normal = status % 128 == 0;
        let code: u32 = (status / 256) % 256;
        if !normal || code != 0 {
            let mut notice: Vec<u8> = Vec::new();
            notice.extend_from_slice(bytes::ascii("\n[runner exit "));
            notice.push(48 + (code % 10) as u8);
            notice.extend_from_slice(bytes::ascii("]\n"));
            assert(notice@ =~= exit_notice(exit_code(status)));
            append_fitted(&mut tail, self.total, notice.as_slice());
        }
        assert(tail@ =~= closing_notices(self.total as int, self.truncated, status));
        tail.push(0);
        bytes::write_at(shared, LINUX_INBOX_SIZE + self.total, tail.as_slice());
    }
}

/// Appends as much of `notice` to `tail` as fits in an outbox that holds
/// `total` bytes and `tail`.
fn append_fitted(tail: &mut Vec<u8>, total: usize, notice: &[u8])
    requires
        total + old(tail)@.len() < LINUX_OUTBOX_SIZE,
    ensures
        final(tail)@ == old(tail)@ + fitted(total + old(tail)@.len(), notice@),
        total + final(tail)@.len() < LINUX_OUTBOX_SIZE,
{
    let space: usize = LINUX_OUTBOX_SIZE - total - tail.len() - 1;
    let n: usize = notice.len();
    let kept: usize = if n < space {
        n
    } else {
        space
    };
    let cut = vstd::slice::slice_subrange(notice, 0, kept);
    assert(cut@ =~= fitted(total + tail@.len(), notice@));
    tail.extend_from_slice(cut);
    assert(tail@ =~= old(tail)@ + fitted(total + old(tail)@.len(), notice@));
}

// Laws

/// The sentinel is the text "CONVEX_READY".
pub proof fn law_ready_sentinel_text()
    ensures
        CONVEX_READY@ == bytes::ascii_bytes("CONVEX_READY"@),
{
    reveal_strlit("CONVEX_READY");
    assert(CONVEX_READY@ =~= bytes::ascii_bytes("CONVEX_READY"@));
}

/// What the host writes to the inbox is what init reads: any message that
/// holds no NUL and fits.
pub proof fn law_inbox_round_trip(shared: Seq<u8>, data: Seq<u8>)
    requires
        shared.len() == LINUX_SHARED_SIZE,
        data.len() < LINUX_INBOX_SIZE,
        bytes::nul_free(data),
    ensures
        inbox_text(with_inbox(shared, data)) == data,
        with_inbox(shared, data).len() == shared.len(),
{
    let window = with_inbox(shared, data).subrange(0, LINUX_INBOX_SIZE as int);
    assert forall|i: int| 0 <= i < data.len() implies window[i] != 0 by {
        assert(data[i] != 0);
    }
    bytes::lemma_until_nul(window, data.len() as int);
    assert(window.take(data.len() as int) =~= data);
}

/// What init writes to the outbox is what the host reads: any answer that
/// holds no NUL and fits; a longer one is cut.
pub proof fn law_outbox_round_trip(shared: Seq<u8>, data: Seq<u8>)
    requires
        shared.len() == LINUX_SHARED_SIZE,
        bytes::nul_free(data),
    ensures
        outbox_text(with_outbox(shared, data)) == (if data.len() < LINUX_OUTBOX_SIZE {
            data
        } else {
            data.take(LINUX_OUTBOX_SIZE - 1)
        }),
{
    let kept = if data.len() < LINUX_OUTBOX_SIZE {
        data
    } else {
        data.take(LINUX_OUTBOX_SIZE - 1)
    };
    let window = with_outbox(shared, data).subrange(
        LINUX_INBOX_SIZE as int,
        LINUX_SHARED_SIZE as int,
    );
    assert forall|i: int| 0 <= i < kept.len() implies window[i] != 0 by {
        assert(kept[i] == data[i]);
        assert(data[i] != 0);
    }
    bytes::lemma_until_nul(window, kept.len() as int);
    assert(window.take(kept.len() as int) =~= kept);
}

/// The inbox and the outbox do not disturb each other.
pub proof fn law_inbox_and_outbox_are_independent(shared: Seq<u8>, data: Seq<u8>)
    requires
        shared.len() == LINUX_SHARED_SIZE,
    ensures
        data.len() < LINUX_INBOX_SIZE ==> outbox_text(with_inbox(shared, data)) == outbox_text(
            shared,
        ),
        inbox_text(with_outbox(shared, data)) == inbox_text(shared),
{
    if data.len() < LINUX_INBOX_SIZE {
        assert(with_inbox(shared, data).subrange(LINUX_INBOX_SIZE as int, LINUX_SHARED_SIZE as int)
            =~= shared.subrange(LINUX_INBOX_SIZE as int, LINUX_SHARED_SIZE as int));
    }
    assert(with_outbox(shared, data).subrange(0, LINUX_INBOX_SIZE as int) =~= shared.subrange(
        0,
        LINUX_INBOX_SIZE as int,
    ));
}

/// Once init has signaled READY the host sees it and init waits; it stops
/// waiting when the host writes any message that does not start with the tag.
pub proof fn law_ready_handshake(shared: Seq<u8>, msg: Seq<u8>)
    requires
        shared.len() == LINUX_SHARED_SIZE,
        msg.len() < LINUX_INBOX_SIZE,
    ensures
        holds_ready(with_inbox(shared, CONVEX_READY@)),
        holds_ready_tag(with_inbox(shared, CONVEX_READY@)),
        bytes::nul_free(msg) ==> (holds_ready_tag(
            with_inbox(with_inbox(shared, CONVEX_READY@), msg),
        ) <==> msg.len() >= 8 && msg.take(8) == CONVEX_READY@.take(8)),
{
    let ready = with_inbox(shared, CONVEX_READY@);
    assert(ready.take(12) =~= CONVEX_READY@);
    assert(ready.take(8) =~= CONVEX_READY@.take(8));
    let next = with_inbox(ready, msg);
    if msg.len() >= 8 {
        assert(next.take(8) =~= msg.take(8));
    } else {
        assert(next.take(8)[msg.len() as int] == 0);
        assert(CONVEX_READY@.take(8)[msg.len() as int] == CONVEX_READY@[msg.len() as int]);
    }
}

/// The part of the runner's output that is kept.
pub open spec fn kept_output(out: Seq<u8>) -> Seq<u8> {
    if out.len() < MAX_OUTPUT {
        out
    } else {
        out.take(MAX_OUTPUT as int)
    }
}

/// The writer and the shared region after `out` was added to an empty outbox.
pub open spec fn collected(shared: Seq<u8>, out: Seq<u8>) -> (OutboxWriter, Seq<u8>) {
    (
        OutboxWriter {
            total: kept_output(out).len() as usize,
            truncated: out.len() > MAX_OUTPUT,
        },
        bytes::overlay(shared, LINUX_INBOX_SIZE as int, kept_output(out)),
    )
}

/// How the runner's output is cut into reads does not matter: adding a chunk
/// to collected output gives what collecting the two together gives.
pub proof fn law_chunking_does_not_matter(shared: Seq<u8>, out: Seq<u8>, chunk: Seq<u8>)
    requires
        shared.len() == LINUX_SHARED_SIZE,
    ensures
        collected(shared, Seq::empty()) == (OutboxWriter { total: 0, truncated: false }, shared),
        ({
            let (w, s) = collected(shared, out);
            w.absorbed(s, chunk) == collected(shared, out + chunk)
        }),
{
    assert(bytes::overlay(shared, LINUX_INBOX_SIZE as int, Seq::<u8>::empty()) =~= shared);
    let (w, s) = collected(shared, out);
    let (w2, s2) = w.absorbed(s, chunk);
    assert(s2 =~= collected(shared, out + chunk).1);
}

/// The shared region after the runner's output and its exit.
pub open spec fn outbox_after(shared: Seq<u8>, out: Seq<u8>, status: u32) -> Seq<u8> {
    let kept = kept_output(out);
    bytes::overlay(
        bytes::overlay(shared, LINUX_INBOX_SIZE as int, kept),
        LINUX_INBOX_SIZE + kept.len(),
        closing_notices(kept.len() as int, out.len() > MAX_OUTPUT, status).push(0),
    )
}

/// The output of a runner that succeeds reaches the host unchanged, as long
/// as it holds no NUL and is within the limit.
pub proof fn law_runner_output_reaches_the_host(shared: Seq<u8>, out: Seq<u8>)
    requires
        shared.len() == LINUX_SHARED_SIZE,
        out.len() <= MAX_OUTPUT,
        bytes::nul_free(out),
    ensures
        outbox_text(outbox_after(shared, out, 0)) == out,
{
    assert(out.len() == MAX_OUTPUT ==> out.take(MAX_OUTPUT as int) =~= out);
    assert(closing_notices(out.len() as int, false, 0) =~= Seq::empty());
    let window = outbox_after(shared, out, 0).subrange(
        LINUX_INBOX_SIZE as int,
        LINUX_SHARED_SIZE as int,
    );
    assert forall|i: int| 0 <= i < out.len() implies window[i] != 0 by {
        assert(out[i] != 0);
    }
    bytes::lemma_until_nul(window, out.len() as int);
    assert(window.take(out.len() as int) =~= out);
}

/// READY is seen only where every byte of the sentinel is there, and init goes
/// on as soon as one of the first eight is not.
pub proof fn law_ready_needs_every_byte(inbox: Seq<u8>, k: int)
    requires
        inbox.len() >= 12,
        0 <= k < 12,
    ensures
        inbox[k] as int != "CONVEX_READY"@[k] as int ==> !holds_ready(inbox),
        inbox[k] as int != "CONVEX_READY"@[k] as int && k < 8 ==> !holds_ready_tag(inbox),
        (forall|i: int| 0 <= i < 12 ==> inbox[i] as int == "CONVEX_READY"@[i] as int)
            ==> holds_ready(inbox),
        (forall|i: int| 0 <= i < 8 ==> inbox[i] as int == "CONVEX_READY"@[i] as int)
            ==> holds_ready_tag(inbox),
{
    reveal_strlit("CONVEX_READY");
    assert forall|i: int| 0 <= i < 12 implies CONVEX_READY@[i] as int
        == "CONVEX_READY"@[i] as int by {}
    assert(inbox.take(12)[k] == inbox[k]);
    if k < 8 {
        assert(inbox.take(8)[k] == inbox[k]);
        assert(CONVEX_READY@.take(8)[k] == CONVEX_READY@[k]);
    }
    if forall|i: int| 0 <= i < 12 ==> inbox[i] as int == "CONVEX_READY"@[i] as int {
        assert forall|i: int| 0 <= i < 12 implies inbox.take(12)[i] == CONVEX_READY@[i] by {
            assert(inbox[i] as int == "CONVEX_READY"@[i] as int);
        }
        assert(inbox.take(12) =~= CONVEX_READY@);
    }
    if forall|i: int| 0 <= i < 8 ==> inbox[i] as int == "CONVEX_READY"@[i] as int {
        assert forall|i: int| 0 <= i < 8 implies inbox.take(8)[i] == CONVEX_READY@.take(8)[i] by {
            assert(inbox[i] as int == "CONVEX_READY"@[i] as int);
        }
        assert(inbox.take(8) =~= CONVEX_READY@.take(8));
    }
}

/// A wait status says in its low seven bits whether a signal ended the process,
/// and in its second byte the code that it exited with.
pub proof fn law_wait_status(code: u32, signal: u32, high: u32)
    requires
        code < 256,
        0 < signal < 128,
        high < 0x1_0000,
    ensures
        exited_normally((0x1_0000 * high + 256 * code) as u32),
        exit_code((0x1_0000 * high + 256 * code) as u32) == code,
        !exited_normally((256 * code + signal) as u32),
        !exited_normally((256 * code + signal + 128) as u32),
{
    let x: int = 0x1_0000 * high + 256 * code;
    assert(x == 128 * (512 * high + 2 * code));
    assert(x % 128 == 0);
    assert(x / 256 == 256 * high + code);
    assert((256 * high + code) % 256 == code as int);
    assert((256 * code + signal) % 128 == signal as int);
    assert((256 * code + signal + 128) % 128 == signal as int);
}

/// What the notices say: nothing of a runner that succeeded within the limit;
/// of one that failed its exit code's last digit, or 0 if a signal ended it;
/// and that output was dropped, if it was. There is always room to say so, but
/// behind the first notice the second is cut to what is left.
pub proof fn law_notices_say_what_happened(total: int, code: u32, signal: u32)
    requires
        0 <= total <= MAX_OUTPUT,
        0 < code < 256,
        0 < signal < 128,
    ensures
        closing_notices(total, false, 0).len() == 0,
        closing_notices(total, false, (256 * code) as u32) == bytes::ascii_bytes(
            "\n[runner exit "@.push(('0' as u32 + code % 10) as char) + "]\n"@,
        ),
        closing_notices(total, false, signal) == bytes::ascii_bytes("\n[runner exit 0]\n"@),
        closing_notices(total, true, 0) == bytes::ascii_bytes("\n[output truncated]\n"@),
        ({
            let both = closing_notices(total, true, (256 * code) as u32);
            &&& both.take(20) == bytes::ascii_bytes("\n[output truncated]\n"@)
            &&& both.len() <= LINUX_OUTBOX_SIZE - total - 1
            &&& both.len() >= 31
            &&& both.skip(20).take(11) == bytes::ascii_bytes("\n[runner ex"@)
        }),
{
    reveal_strlit("\n[output truncated]\n");
    reveal_strlit("\n[runner exit ");
    reveal_strlit("\n[runner exit 0]\n");
    reveal_strlit("\n[runner ex");
    reveal_strlit("]\n");
    let text = "\n[runner exit "@.push(('0' as u32 + code % 10) as char) + "]\n"@;
    let c = exit_code((256 * code) as u32);
    assert(c == code);
    assert(exit_notice(c) =~= bytes::ascii_bytes(text));
    assert(exit_notice(0) =~= bytes::ascii_bytes("\n[runner exit 0]\n"@));
    assert(exit_code(signal) == 0);
    assert(closing_notices(total, false, 0) =~= Seq::empty());
    assert(closing_notices(total, false, (256 * code) as u32) =~= exit_notice(c));
    assert(closing_notices(total, false, signal) =~= exit_notice(0));
    assert(closing_notices(total, true, 0) =~= truncation_notice());
    let both = closing_notices(total, true, (256 * code) as u32);
    assert(both.take(20) =~= truncation_notice());
    assert(both.skip(20).take(11) =~= bytes::ascii_bytes("\n[runner ex"@));
}

/// The notices hold no NUL.
proof fn lemma_notices(total: int, truncated: bool, status: u32)
    requires
        0 <= total <= MAX_OUTPUT,
    ensures
        bytes::nul_free(closing_notices(total, truncated, status)),
        total + closing_notices(total, truncated, status).len() < LINUX_OUTBOX_SIZE,
{
    reveal_strlit("\n[output truncated]\n");
    reveal_strlit("\n[runner exit ");
    reveal_strlit("]\n");
    let notices = closing_notices(total, truncated, status);
    assert(bytes::nul_free(truncation_notice()));
    let e = exit_notice(exit_code(status));
    assert forall|i: int| 0 <= i < e.len() implies e[i] != 0 by {
        if i < 14 {
            assert(e[i] == bytes::ascii_bytes("\n[runner exit "@)[i]);
        } else if i > 14 {
            assert(e[i] == bytes::ascii_bytes("]\n"@)[i - 15]);
        }
    }
}

/// Whatever becomes of the runner, its output as far as it is kept reaches the
/// host, followed by the notices and by nothing else.
pub proof fn law_output_and_notices_reach_the_host(shared: Seq<u8>, out: Seq<u8>, status: u32)
    requires
        shared.len() == LINUX_SHARED_SIZE,
        bytes::nul_free(out),
    ensures
        ({
            let kept = if out.len() <= 0x7F_FFE0 {
                out
            } else {
                out.take(0x7F_FFE0)
            };
            outbox_text(outbox_after(shared, out, status)) == kept + closing_notices(
                kept.len() as int,
                out.len() > 0x7F_FFE0,
                status,
            )
        }),
        inbox_text(outbox_after(shared, out, status)) == inbox_text(shared),
{
    let kept = kept_output(out);
    assert(out.len() == MAX_OUTPUT ==> out.take(MAX_OUTPUT as int) =~= out);
    let notices = closing_notices(kept.len() as int, out.len() > MAX_OUTPUT, status);
    lemma_notices(kept.len() as int, out.len() > MAX_OUTPUT, status);
    let after = outbox_after(shared, out, status);
    let window = after.subrange(LINUX_INBOX_SIZE as int, LINUX_SHARED_SIZE as int);
    let all = kept + notices;
    assert forall|i: int| 0 <= i < all.len() implies window[i] == all[i] && window[i] != 0 by {
        if i < kept.len() {
            assert(kept[i] == out[i]);
            assert(out[i] != 0);
        } else {
            assert(notices[i - kept.len()] != 0);
        }
    }
    bytes::lemma_until_nul(window, all.len() as int);
    assert(window.take(all.len() as int) =~= all);
    assert(after.subrange(0, LINUX_INBOX_SIZE as int) =~= shared.subrange(
        0,
        LINUX_INBOX_SIZE as int,
    ));
}

} // verus!
