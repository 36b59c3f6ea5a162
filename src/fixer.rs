//! Adding and removing the BOM of one file.
//!
//! The work on a file alternates reads and writes with decisions, so it is a
//! small state machine: [`start`] and [`advance`] say which input or output
//! step comes next, and the caller performs that step and reports what came of
//! it as a [`FixEvent`]. Every write goes to a temporary file beside the
//! target that then replaces it, so the target is never left half written.
use crate::encoding::is_buf_utf8;
use crate::fix_rule::FileDecision;
use vstd::prelude::*;
use vstd::utf8::valid_utf8;

verus! {

/// The UTF-8 byte-order mark.
pub open spec fn bom() -> Seq<u8> {
    seq![0xEFu8, 0xBBu8, 0xBFu8]
}

pub open spec fn starts_with_bom(s: Seq<u8>) -> bool {
    s.len() >= 3 && s[0] == 0xEFu8 && s[1] == 0xBBu8 && s[2] == 0xBFu8
}

/// Why processing of a file ended as it did.
#[derive(PartialEq, Eq, Structural, Debug, Clone, Copy)]
pub enum Reason {
    AlreadyCorrect,
    NotUtf8,
    Mutated,
    IoError,
}

/// How processing of one file ended.
#[derive(PartialEq, Eq, Structural, Debug, Clone, Copy)]
pub struct FileOutcome {
    pub changed: bool,
    pub reason: Reason,
}

pub open spec fn outcome_of(reason: Reason) -> FileOutcome {
    FileOutcome { changed: reason == Reason::Mutated, reason }
}

/// The result of fixing a file that holds `c` under decision `d`, when no
/// input or output fails: why it ended, and what the file holds afterwards.
pub open spec fn fix_result(d: FileDecision, c: Seq<u8>) -> (Reason, Seq<u8>) {
    match d {
        FileDecision::NoOp => (Reason::AlreadyCorrect, c),
        FileDecision::RemoveBom => if starts_with_bom(c) {
            (Reason::Mutated, c.skip(3))
        } else {
            (Reason::AlreadyCorrect, c)
        },
        FileDecision::AddBom => if starts_with_bom(c) {
            (Reason::AlreadyCorrect, c)
        } else if !valid_utf8(c) {
            (Reason::NotUtf8, c)
        } else {
            (Reason::Mutated, bom() + c)
        },
    }
}

/// The next input or output step that fixing a file needs.
pub enum FixStep {
    /// Read the first three bytes of the file, or all of it if it is shorter.
    ReadHead,
    /// Read every byte after those read so far.
    ReadRest,
    /// Write these bytes, then the bytes of the file not read so far, to a
    /// temporary file beside the target, and replace the target with it.
    Rewrite(Vec<u8>),
    /// Processing has ended.
    Finish(FileOutcome),
}

/// What came of the step that was asked for.
pub enum FixEvent {
    HeadRead(Vec<u8>),
    RestRead(Vec<u8>),
    Replaced,
    Failed,
}

/// Where the fixing of one file stands.
pub enum FixState {
    AwaitHead(FileDecision),
    AwaitRest(Vec<u8>),
    AwaitReplace,
    Done(FileOutcome),
}

/// The machine is done with `reason`, and says so.
pub open spec fn finishes(s: FixState, step: FixStep, reason: Reason) -> bool {
    s == FixState::Done(outcome_of(reason)) && step == FixStep::Finish(outcome_of(reason))
}

/// The machine waits for the replacement of the target, having asked to write
/// `prefix` followed by the unread bytes.
pub open spec fn rewrites(s: FixState, step: FixStep, prefix: Seq<u8>) -> bool {
    s == FixState::AwaitReplace && match step {
        FixStep::Rewrite(p) => p@ == prefix,
        _ => false,
    }
}

/// `(s2, step)` is what event `e` makes of state `s`. A failure ends the work
/// with `IoError`, and so does an event that the state did not ask for; once
/// done, the machine stays done.
pub open spec fn advances(s: FixState, e: FixEvent, s2: FixState, step: FixStep) -> bool {
    match s {
        FixState::Done(o) => s2 == s && step == FixStep::Finish(o),
        FixState::AwaitHead(d) => match e {
            FixEvent::HeadRead(h) => match d {
                FileDecision::RemoveBom => if starts_with_bom(h@) {
                    rewrites(s2, step, h@.skip(3))
                } else {
                    finishes(s2, step, Reason::AlreadyCorrect)
                },
                FileDecision::AddBom => if starts_with_bom(h@) {
                    finishes(s2, step, Reason::AlreadyCorrect)
                } else {
                    s2 == FixState::AwaitRest(h) && step == FixStep::ReadRest
                },
                FileDecision::NoOp => finishes(s2, step, Reason::AlreadyCorrect),
            },
            _ => finishes(s2, step, Reason::IoError),
        },
        FixState::AwaitRest(h) => match e {
            FixEvent::RestRead(rest) => if valid_utf8(h@ + rest@) {
                rewrites(s2, step, bom() + h@ + rest@)
            } else {
                finishes(s2, step, Reason::NotUtf8)
            },
            _ => finishes(s2, step, Reason::IoError),
        },
        FixState::AwaitReplace => match e {
            FixEvent::Replaced => finishes(s2, step, Reason::Mutated),
            _ => finishes(s2, step, Reason::IoError),
        },
    }
}

/// Appends `src[from..]` to `dst`.
fn append_from(dst: &mut Vec<u8>, src: &Vec<u8>, from: usize)
    requires
        from <= src.len(),
    ensures
        final(dst)@ == old(dst)@ + src@.skip(from as int),
{
    let mut i: usize = from;
    while i < src.len()
        invariant
            from <= i <= src.len(),
            dst@ == old(dst)@ + src@.subrange(from as int, i as int),
        decreases src.len() - i,
    {
        dst.push(src[i]);
        assert(src@.subrange(from as int, i + 1) == src@.subrange(from as int, i as int).push(
            src@[i as int],
        ));
        i += 1;
    }
}

/// The bytes of `src` from `from` on.
fn bytes_from(src: &Vec<u8>, from: usize) -> (r: Vec<u8>)
    requires
        from <= src.len(),
    ensures
        r@ == src@.skip(from as int),
{
    let mut r: Vec<u8> = Vec::new();
    append_from(&mut r, src, from);
    r
}

/// The first `n` bytes of `src`.
fn bytes_upto(src: &Vec<u8>, n: usize) -> (r: Vec<u8>)
    requires
        n <= src.len(),
    ensures
        r@ == src@.take(n as int),
{
    let mut r: Vec<u8> = Vec::new();
    let mut i: usize = 0;
    while i < n
        invariant
            i <= n <= src.len(),
            r@ == src@.take(i as int),
        decreases n - i,
    {
        r.push(src[i]);
        assert(src@.take(i + 1) == src@.take(i as int).push(src@[i as int]));
        i += 1;
    }
    r
}

/// Whether `b` starts with the BOM.
pub fn has_bom(b: &Vec<u8>) -> (r: bool)
    ensures
        r == starts_with_bom(b@),
{
    b.len() >= 3 && b[0] == 0xEFu8 && b[1] == 0xBBu8 && b[2] == 0xBFu8
}

fn finish(reason: Reason) -> (r: (FixState, FixStep))
    ensures
        finishes(r.0, r.1, reason),
{
    let o = FileOutcome { changed: reason == Reason::Mutated, reason };
    (FixState::Done(o), FixStep::Finish(o))
}

/// The first step of fixing a file under `decision`.
pub fn start(decision: FileDecision) -> (r: (FixState, FixStep))
    ensures
        decision == FileDecision::NoOp ==> finishes(r.0, r.1, Reason::AlreadyCorrect),
        decision != FileDecision::NoOp ==> r.0 == FixState::AwaitHead(decision) && r.1
            == FixStep::ReadHead,
{
    match decision {
        FileDecision::NoOp => finish(Reason::AlreadyCorrect),
        _ => (FixState::AwaitHead(decision), FixStep::ReadHead),
    }
}

/// The state and step that `event` leads to from `state`.
pub fn advance(state: FixState, event: FixEvent) -> (r: (FixState, FixStep))
    ensures
        advances(state, event, r.0, r.1),
{
    match state {
        FixState::Done(o) => (FixState::Done(o), FixStep::Finish(o)),
        FixState::AwaitHead(d) => match event {
            FixEvent::HeadRead(head) => match d {
                FileDecision::RemoveBom => if has_bom(&head) {
                    (FixState::AwaitReplace, FixStep::Rewrite(bytes_from(&head, 3)))
                } else {
                    finish(Reason::AlreadyCorrect)
                },
                FileDecision::AddBom => if has_bom(&head) {
                    finish(Reason::AlreadyCorrect)
                } else {
                    (FixState::AwaitRest(head), FixStep::ReadRest)
                },
                FileDecision::NoOp => finish(Reason::AlreadyCorrect),
            },
            _ => finish(Reason::IoError),
        },
        FixState::AwaitRest(head) => match event {
            FixEvent::RestRead(rest) => {
                let mut content = bytes_from(&head, 0);
                append_from(&mut content, &rest, 0);
                assert(content@ == head@ + rest@);
                if is_buf_utf8(content.as_slice()) {
                    let mut out: Vec<u8> = Vec::new();
                    out.push(0xEFu8);
                    out.push(0xBBu8);
                    out.push(0xBFu8);
                    append_from(&mut out, &content, 0);
                    assert(out@ == bom() + head@ + rest@);
                    (FixState::AwaitReplace, FixStep::Rewrite(out))
                } else {
                    finish(Reason::NotUtf8)
                }
            },
            _ => finish(Reason::IoError),
        },
        FixState::AwaitReplace => match event {
            FixEvent::Replaced => finish(Reason::Mutated),
            _ => finish(Reason::IoError),
        },
    }
}

/// Fixes the BOM of `content` held in memory, under `decision`: the machine
/// reads from `content` and the rewrite yields the new content. Returns the
/// outcome and the content afterwards.
pub fn fix_bytes(decision: FileDecision, content: &Vec<u8>) -> (r: (FileOutcome, Vec<u8>))
    ensures
        r.0 == outcome_of(fix_result(decision, content@).0),
        r.1@ == fix_result(decision, content@).1,
{
    let n: usize = if content.len() < 3 {
        content.len()
    } else {
        3
    };
    let (state, step) = start(decision);
    match step {
        FixStep::ReadHead => {},
        FixStep::Finish(o) => {
            return (o, bytes_from(content, 0));
        },
        _ => {
            return unreached();
        },
    }
    let head = bytes_upto(content, n);
    let ghost head_view = head@;
    let (state, step) = advance(state, FixEvent::HeadRead(head));
    match step {
        FixStep::Finish(o) => (o, bytes_from(content, 0)),
        FixStep::Rewrite(prefix) => {
            let mut out = prefix;
            append_from(&mut out, content, n);
            let (_, step) = advance(state, FixEvent::Replaced);
            match step {
                FixStep::Finish(o) => (o, out),
                _ => unreached(),
            }
        },
        FixStep::ReadRest => {
            let rest = bytes_from(content, n);
            assert(head_view + rest@ == content@);
            let (state, step) = advance(state, FixEvent::RestRead(rest));
            match step {
                FixStep::Finish(o) => (o, bytes_from(content, 0)),
                FixStep::Rewrite(prefix) => {
                    let (_, step) = advance(state, FixEvent::Replaced);
                    match step {
                        FixStep::Finish(o) => (o, prefix),
                        _ => unreached(),
                    }
                },
                _ => unreached(),
            }
        },
        FixStep::ReadHead => unreached(),
    }
}

/// Removing the BOM twice: the first removal changes the file, the second
/// finds nothing to remove and leaves the content as the first left it. This
/// holds of every content that starts with one BOM and not with two.
pub proof fn lemma_remove_twice(c: Seq<u8>)
    requires
        starts_with_bom(c),
        !starts_with_bom(c.skip(3)),
    ensures
        fix_result(FileDecision::RemoveBom, c).0 == Reason::Mutated,
        fix_result(FileDecision::RemoveBom, fix_result(FileDecision::RemoveBom, c).1).0
            == Reason::AlreadyCorrect,
        fix_result(FileDecision::RemoveBom, fix_result(FileDecision::RemoveBom, c).1).1
            == fix_result(FileDecision::RemoveBom, c).1,
{
}

/// Adding the BOM to well-formed UTF-8 content without one, then removing it,
/// gives back exactly that content; both steps change the file.
pub proof fn lemma_add_then_remove(c: Seq<u8>)
    requires
        valid_utf8(c),
        !starts_with_bom(c),
    ensures
        fix_result(FileDecision::AddBom, c).0 == Reason::Mutated,
        fix_result(FileDecision::RemoveBom, fix_result(FileDecision::AddBom, c).1).0
            == Reason::Mutated,
        fix_result(FileDecision::RemoveBom, fix_result(FileDecision::AddBom, c).1).1 == c,
{
    let added = bom() + c;
    assert(added.skip(3) =~= c);
}

/// Content that is not well-formed UTF-8 never gains a BOM: adding one ends
/// with `NotUtf8` (or finds one already there) and leaves the content as it was.
pub proof fn lemma_binary_untouched(c: Seq<u8>)
    requires
        !valid_utf8(c),
    ensures
        fix_result(FileDecision::AddBom, c).1 == c,
        !starts_with_bom(c) ==> fix_result(FileDecision::AddBom, c).0 == Reason::NotUtf8,
{
}

} // verus!
