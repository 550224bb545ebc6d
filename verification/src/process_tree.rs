//! The tree of processes that the test program starts: the order in which each
//! generation starts the next, waits for its word, and passes it on.

use vstd::prelude::*;

use crate::fixture::{
    child_readiness, is_child_line, parse_child_readiness, parse_grandchild_readiness, pid_of,
    tree_of, FixtureError, ProcessTreeScenario,
};
use crate::fixture_output::tree_readiness;
use crate::text::decimal_text;

verus! {

/// What the first process of a tree does next.
#[derive(Debug)]
#[allow(inconsistent_fields)]
pub enum RootStep {
    /// Start the child.
    Spawn,
    /// Read the line by which the child says that it is there.
    ReadChild { expected: u32 },
    /// See whether the child is still there.
    LookAtChild { child: u32, grandchild: u32 },
    /// Wait until the child has ended well.
    AwaitChild { child: u32, grandchild: u32 },
    /// Say that the tree stands.
    Announce { line: String },
    /// Stay for the time that was asked for.
    Hold,
    /// Wait until the child has ended well, at the end.
    AwaitEnd,
    /// End the child, and then give up.
    TerminateChild(FixtureError),
    Finished(Result<(), FixtureError>),
}

/// What the second process of a tree does next.
#[derive(Debug)]
#[allow(inconsistent_fields)]
pub enum ChildStep {
    /// Start the grandchild.
    Spawn,
    /// Read the line by which the grandchild says that it is there.
    ReadGrandchild { expected: u32 },
    /// Say that both are there.
    Announce { line: String },
    /// Stay for the time that was asked for.
    Hold,
    /// Wait until the grandchild has ended well.
    AwaitGrandchild,
    /// End the grandchild, and then give up.
    TerminateGrandchild(FixtureError),
    Finished(Result<(), FixtureError>),
}

/// What came of a step.
#[derive(Debug)]
pub enum TreeReply {
    /// The number of the process that was started.
    Spawned(Result<u32, FixtureError>),
    /// The line of a process, without its end.
    Line(Result<Vec<u8>, FixtureError>),
    /// Whether a process has ended, where that could be asked.
    Ended(Option<bool>),
    /// What became of waiting for a good end.
    Awaited(Result<(), FixtureError>),
    /// Whether a line was written.
    Written(bool),
    /// The time has passed.
    Held,
    /// A process was ended, as far as it could be.
    Terminated,
}

/// A line names a child and a grandchild.
pub open spec fn names_child(line: Seq<u8>, child: u32, grandchild: u32) -> bool {
    exists|first: Seq<u8>, second: Seq<u8>| #[trigger]
        is_child_line(line, first, second) && pid_of(first) == Some(child) && pid_of(second)
            == Some(grandchild)
}

/// A line names a grandchild.
pub open spec fn names_grandchild(line: Seq<u8>, grandchild: u32) -> bool {
    exists|digits: Seq<u8>|
        line == #[trigger] (vstd::utf8::encode_utf8("MAGICTOOLS_TEST_FIXTURE_GRANDCHILD_READY:"@)
            + digits) && pid_of(digits) == Some(grandchild)
}

/// A line says that a tree stands.
pub open spec fn announces_tree(
    line: Seq<char>,
    own: u32,
    child: u32,
    grandchild: u32,
    tree: ProcessTreeScenario,
) -> bool {
    exists|name: Seq<char>| #[trigger]
        tree_of(name) == Some(tree) && line == "MAGICTOOLS_TEST_FIXTURE_PROCESS_TREE_READY:"@
            + decimal_text(own as nat) + ":"@ + decimal_text(child as nat) + ":"@ + decimal_text(
            grandchild as nat,
        ) + ":"@ + name
}

/// The tree is announced next.
pub open spec fn announces(
    next: RootStep,
    own: u32,
    child: u32,
    grandchild: u32,
    tree: ProcessTreeScenario,
) -> bool {
    match next {
        RootStep::Announce { line } => announces_tree(line@, own, child, grandchild, tree),
        _ => false,
    }
}

impl RootStep {
    /// A reply is one to what was asked.
    pub open spec fn asks_for(self, reply: TreeReply) -> bool {
        match self {
            RootStep::Spawn => reply is Spawned,
            RootStep::ReadChild { .. } => reply is Line,
            RootStep::LookAtChild { .. } => reply is Ended,
            RootStep::AwaitChild { .. } | RootStep::AwaitEnd => reply is Awaited,
            RootStep::Announce { .. } => reply is Written,
            RootStep::Hold => reply is Held,
            RootStep::TerminateChild(_) => reply is Terminated,
            RootStep::Finished(_) => false,
        }
    }
}

impl ChildStep {
    /// A reply is one to what was asked.
    pub open spec fn asks_for(self, reply: TreeReply) -> bool {
        match self {
            ChildStep::Spawn => reply is Spawned,
            ChildStep::ReadGrandchild { .. } => reply is Line,
            ChildStep::Announce { .. } => reply is Written,
            ChildStep::Hold => reply is Held,
            ChildStep::AwaitGrandchild => reply is Awaited,
            ChildStep::TerminateGrandchild(_) => reply is Terminated,
            ChildStep::Finished(_) => false,
        }
    }
}

/// What follows the line of the child.
pub open spec fn child_is_met(
    expected: u32,
    tree: ProcessTreeScenario,
    line: Seq<u8>,
    next: RootStep,
) -> bool {
    match next {
        RootStep::LookAtChild { child, grandchild } => tree == ProcessTreeScenario::Stable && child
            == expected && names_child(line, child, grandchild),
        RootStep::AwaitChild { child, grandchild } => tree
            == ProcessTreeScenario::ChildExitsAfterSpawn && child == expected && names_child(
            line,
            child,
            grandchild,
        ),
        RootStep::TerminateChild(error) => error == FixtureError::Runtime && forall|
            grandchild: u32,
        |
            !#[trigger] names_child(line, expected, grandchild),
        _ => false,
    }
}

/// What follows a step of the first process. Its own number is given, and what
/// is to become of the tree.
pub open spec fn root_follows(
    own: u32,
    tree: ProcessTreeScenario,
    step: RootStep,
    reply: TreeReply,
    next: RootStep,
) -> bool {
    match (step, reply) {
        (RootStep::Spawn, TreeReply::Spawned(spawned)) => next == match spawned {
            Ok(expected) => RootStep::ReadChild { expected },
            Err(error) => RootStep::Finished(Err(error)),
        },
        (RootStep::ReadChild { expected }, TreeReply::Line(read)) => match read {
            Ok(line) => child_is_met(expected, tree, line@, next),
            Err(error) => next == RootStep::TerminateChild(error),
        },
        (RootStep::LookAtChild { child, grandchild }, TreeReply::Ended(ended)) => if ended == Some(
            false,
        ) {
            announces(next, own, child, grandchild, tree)
        } else {
            next == RootStep::TerminateChild(FixtureError::Runtime)
        },
        (RootStep::AwaitChild { child, grandchild }, TreeReply::Awaited(end)) => match end {
            Ok(_) => announces(next, own, child, grandchild, tree),
            Err(error) => next == RootStep::TerminateChild(error),
        },
        (RootStep::Announce { .. }, TreeReply::Written(written)) => next == if written {
            RootStep::Hold
        } else {
            RootStep::TerminateChild(FixtureError::Runtime)
        },
        (RootStep::Hold, TreeReply::Held) => next == match tree {
            ProcessTreeScenario::Stable => RootStep::AwaitEnd,
            ProcessTreeScenario::ChildExitsAfterSpawn => RootStep::Finished(Ok(())),
        },
        (RootStep::AwaitEnd, TreeReply::Awaited(end)) => next == match end {
            Ok(_) => RootStep::Finished(Ok(())),
            Err(error) => RootStep::TerminateChild(error),
        },
        (RootStep::TerminateChild(error), TreeReply::Terminated) => next == RootStep::Finished(
            Err(error),
        ),
        _ => false,
    }
}

/// What follows a step of the second process.
pub open spec fn child_follows(
    own: u32,
    tree: ProcessTreeScenario,
    step: ChildStep,
    reply: TreeReply,
    next: ChildStep,
) -> bool {
    match (step, reply) {
        (ChildStep::Spawn, TreeReply::Spawned(spawned)) => next == match spawned {
            Ok(expected) => ChildStep::ReadGrandchild { expected },
            Err(error) => ChildStep::Finished(Err(error)),
        },
        (ChildStep::ReadGrandchild { expected }, TreeReply::Line(read)) => match read {
            Ok(line) => match next {
                ChildStep::Announce { line: said } => names_grandchild(line@, expected) && said@
                    == "MAGICTOOLS_TEST_FIXTURE_CHILD_READY:"@ + decimal_text(own as nat) + ":"@
                    + decimal_text(expected as nat),
                ChildStep::TerminateGrandchild(error) => error == FixtureError::Runtime
                    && !names_grandchild(line@, expected),
                _ => false,
            },
            Err(error) => next == ChildStep::TerminateGrandchild(error),
        },
        (ChildStep::Announce { .. }, TreeReply::Written(written)) => next == if !written {
            ChildStep::TerminateGrandchild(FixtureError::Runtime)
        } else if tree == ProcessTreeScenario::ChildExitsAfterSpawn {
            ChildStep::Finished(Ok(()))
        } else {
            ChildStep::Hold
        },
        (ChildStep::Hold, TreeReply::Held) => next is AwaitGrandchild,
        (ChildStep::AwaitGrandchild, TreeReply::Awaited(end)) => next == ChildStep::Finished(end),
        (ChildStep::TerminateGrandchild(error), TreeReply::Terminated) => next
            == ChildStep::Finished(Err(error)),
        _ => false,
    }
}

/// A line names one child only.
proof fn lemma_one_child(line: Seq<u8>, child: u32, grandchild: u32, other: u32, further: u32)
    requires
        names_child(line, child, grandchild),
        names_child(line, other, further),
    ensures
        child == other,
{
    let head = vstd::utf8::encode_utf8("MAGICTOOLS_TEST_FIXTURE_CHILD_READY:"@);
    let (a, b) = choose|a: Seq<u8>, b: Seq<u8>| #[trigger]
        is_child_line(line, a, b) && pid_of(a) == Some(child) && pid_of(b) == Some(grandchild);
    let (c, d) = choose|c: Seq<u8>, d: Seq<u8>| #[trigger]
        is_child_line(line, c, d) && pid_of(c) == Some(other) && pid_of(d) == Some(further);
    let rest = line.subrange(head.len() as int, line.len() as int);
    assert(rest =~= a + seq![58u8] + b);
    assert(rest =~= c + seq![58u8] + d);
    if a.len() < c.len() {
        assert(rest[a.len() as int] == 58);
        assert(c[a.len() as int] == 58);
    } else if c.len() < a.len() {
        assert(rest[c.len() as int] == 58);
        assert(a[c.len() as int] == 58);
    } else {
        assert forall|i: int| 0 <= i < a.len() implies a[i] == c[i] by {
            assert(rest[i] == a[i]);
        }
        assert(a =~= c);
    }
}

fn meet_child(expected: u32, tree: ProcessTreeScenario, line: Vec<u8>) -> (next: RootStep)
    ensures
        child_is_met(expected, tree, line@, next),
{
    let (child, grandchild) = match parse_child_readiness(line.as_slice()) {
        Ok(pair) => pair,
        Err(_) => return RootStep::TerminateChild(FixtureError::Runtime),
    };
    assert(names_child(line@, child, grandchild));
    if child != expected {
        proof {
            assert forall|other: u32| !#[trigger] names_child(line@, expected, other) by {
                if names_child(line@, expected, other) {
                    lemma_one_child(line@, child, grandchild, expected, other);
                }
            }
        }
        return RootStep::TerminateChild(FixtureError::Runtime);
    }
    match tree {
        ProcessTreeScenario::Stable => RootStep::LookAtChild { child, grandchild },
        ProcessTreeScenario::ChildExitsAfterSpawn => RootStep::AwaitChild { child, grandchild },
    }
}

/// Moves the first process of a tree on by one step. The tree is announced only
/// where the child is the process that was started, and is still there or has
/// ended as it should.
pub fn run_root(own: u32, tree: ProcessTreeScenario, step: RootStep, reply: TreeReply) -> (next:
    RootStep)
    requires
        step.asks_for(reply),
    ensures
        root_follows(own, tree, step, reply, next),
{
    match (step, reply) {
        (RootStep::Spawn, TreeReply::Spawned(spawned)) => match spawned {
            Ok(expected) => RootStep::ReadChild { expected },
            Err(error) => RootStep::Finished(Err(error)),
        },
        (RootStep::ReadChild { expected }, TreeReply::Line(read)) => match read {
            Ok(line) => meet_child(expected, tree, line),
            Err(error) => RootStep::TerminateChild(error),
        },
        (RootStep::LookAtChild { child, grandchild }, TreeReply::Ended(ended)) => match ended {
            Some(false) => RootStep::Announce {
                line: tree_readiness(own, child, grandchild, tree),
            },
            _ => RootStep::TerminateChild(FixtureError::Runtime),
        },
        (RootStep::AwaitChild { child, grandchild }, TreeReply::Awaited(end)) => match end {
            Ok(_) => RootStep::Announce { line: tree_readiness(own, child, grandchild, tree) },
            Err(error) => RootStep::TerminateChild(error),
        },
        (RootStep::Announce { line: _ }, TreeReply::Written(written)) => if written {
            RootStep::Hold
        } else {
            RootStep::TerminateChild(FixtureError::Runtime)
        },
        (RootStep::Hold, TreeReply::Held) => match tree {
            ProcessTreeScenario::Stable => RootStep::AwaitEnd,
            ProcessTreeScenario::ChildExitsAfterSpawn => RootStep::Finished(Ok(())),
        },
        (RootStep::AwaitEnd, TreeReply::Awaited(end)) => match end {
            Ok(_) => RootStep::Finished(Ok(())),
            Err(error) => RootStep::TerminateChild(error),
        },
        (RootStep::TerminateChild(error), TreeReply::Terminated) => RootStep::Finished(Err(error)),
        _ => vstd::pervasive::unreached(),
    }
}

/// Moves the second process of a tree on by one step.
pub fn run_child(own: u32, tree: ProcessTreeScenario, step: ChildStep, reply: TreeReply) -> (next:
    ChildStep)
    requires
        step.asks_for(reply),
    ensures
        child_follows(own, tree, step, reply, next),
{
    match (step, reply) {
        (ChildStep::Spawn, TreeReply::Spawned(spawned)) => match spawned {
            Ok(expected) => ChildStep::ReadGrandchild { expected },
            Err(error) => ChildStep::Finished(Err(error)),
        },
        (ChildStep::ReadGrandchild { expected }, TreeReply::Line(read)) => match read {
            Ok(line) => match parse_grandchild_readiness(line.as_slice()) {
                Ok(grandchild) => {
                    proof {
                        lemma_one_grandchild(line@, grandchild, expected);
                    }
                    if grandchild == expected {
                        ChildStep::Announce { line: child_readiness(own, grandchild) }
                    } else {
                        ChildStep::TerminateGrandchild(FixtureError::Runtime)
                    }
                },
                Err(_) => ChildStep::TerminateGrandchild(FixtureError::Runtime),
            },
            Err(error) => ChildStep::TerminateGrandchild(error),
        },
        (ChildStep::Announce { line: _ }, TreeReply::Written(written)) => if !written {
            ChildStep::TerminateGrandchild(FixtureError::Runtime)
        } else {
            match tree {
                ProcessTreeScenario::ChildExitsAfterSpawn => ChildStep::Finished(Ok(())),
                ProcessTreeScenario::Stable => ChildStep::Hold,
            }
        },
        (ChildStep::Hold, TreeReply::Held) => ChildStep::AwaitGrandchild,
        (ChildStep::AwaitGrandchild, TreeReply::Awaited(end)) => ChildStep::Finished(end),
        (ChildStep::TerminateGrandchild(error), TreeReply::Terminated) => ChildStep::Finished(
            Err(error),
        ),
        _ => vstd::pervasive::unreached(),
    }
}

/// A line names one grandchild only.
proof fn lemma_one_grandchild(line: Seq<u8>, grandchild: u32, other: u32)
    requires
        names_grandchild(line, grandchild),
    ensures
        names_grandchild(line, other) ==> other == grandchild,
{
    let head = vstd::utf8::encode_utf8("MAGICTOOLS_TEST_FIXTURE_GRANDCHILD_READY:"@);
    if names_grandchild(line, other) {
        let a = choose|a: Seq<u8>|
            line == #[trigger] (head + a) && pid_of(a) == Some(grandchild);
        let b = choose|b: Seq<u8>| line == #[trigger] (head + b) && pid_of(b) == Some(other);
        assert(a =~= line.subrange(head.len() as int, line.len() as int));
        assert(b =~= line.subrange(head.len() as int, line.len() as int));
    }
}

/// Once a child was started, the first process fails only after it has tried to
/// end it; and it announces the process that it has started, and no other.
pub proof fn lemma_child_is_not_left(
    own: u32,
    tree: ProcessTreeScenario,
    step: RootStep,
    reply: TreeReply,
    next: RootStep,
)
    requires
        step.asks_for(reply),
        root_follows(own, tree, step, reply, next),
    ensures
        next is Finished && next->Finished_0 is Err ==> step is TerminateChild || step is Spawn,
        step is ReadChild && next is LookAtChild ==> next->LookAtChild_child == step->expected,
        step is ReadChild && next is AwaitChild ==> next->AwaitChild_child == step->expected,
        next is Announce ==> step is LookAtChild || step is AwaitChild,
{
}

} // verus!
