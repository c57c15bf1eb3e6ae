use vstd::prelude::*;

use crate::config::RunConfig;

verus! {

/// One unit of work the runner submits to the device, in submission order.
#[derive(Clone, Copy, PartialEq, Eq, Structural, Debug)]
pub enum Command {
    /// Copy the full byte range from the staging buffer into the storage
    /// buffer (the seed upload).
    SeedCopy { bytes: u64 },
    /// One compute pass over the bound storage buffer: `groups` workgroups
    /// on the x axis, one on y and z.
    Dispatch { groups: u32 },
    /// Block until the device has finished all work submitted so far.
    SyncWait,
    /// Copy the full byte range from the storage buffer back into the
    /// staging buffer (the final readback).
    ReadbackCopy { bytes: u64 },
}

/// The seed upload command of a configuration.
pub open spec fn seed_cmd(cfg: RunConfig) -> Command {
    Command::SeedCopy { bytes: (cfg.entries * 4) as u64 }
}

/// The final readback command of a configuration.
pub open spec fn readback_cmd(cfg: RunConfig) -> Command {
    Command::ReadbackCopy { bytes: (cfg.entries * 4) as u64 }
}

/// The first `n` dispatch rounds: one dispatch per round and, when
/// `sync_interval` is positive, a completion wait after every
/// `sync_interval`-th round.
pub open spec fn rounds_spec(cfg: RunConfig, n: int) -> Seq<Command>
    decreases n,
{
    if n <= 0 {
        Seq::empty()
    } else {
        rounds_spec(cfg, n - 1) + seq![Command::Dispatch { groups: cfg.entries as u32 }] + (
        if cfg.sync_interval > 0 && n % (cfg.sync_interval as int) == 0 {
            seq![Command::SyncWait]
        } else {
            Seq::empty()
        })
    }
}

/// The whole plan: the seed upload, then the dispatch rounds, then the
/// final readback.
pub open spec fn plan_spec(cfg: RunConfig) -> Seq<Command> {
    seq![seed_cmd(cfg)] + rounds_spec(cfg, cfg.iterations as int) + seq![readback_cmd(cfg)]
}

/// How many dispatches a command sequence holds.
pub open spec fn dispatch_count(s: Seq<Command>) -> int
    decreases s.len(),
{
    if s.len() == 0 {
        0
    } else {
        dispatch_count(s.drop_last()) + if s.last() is Dispatch {
            1int
        } else {
            0int
        }
    }
}

/// Whether a command carries the sizes the configuration demands: every
/// copy moves exactly `entries * 4` bytes and every dispatch covers exactly
/// `entries` workgroups.
pub open spec fn command_sized(cfg: RunConfig, c: Command) -> bool {
    match c {
        Command::SeedCopy { bytes } => bytes == cfg.entries * 4,
        Command::Dispatch { groups } => groups == cfg.entries,
        Command::SyncWait => true,
        Command::ReadbackCopy { bytes } => bytes == cfg.entries * 4,
    }
}

/// Builds the submission plan of a configuration.
pub fn build_plan(cfg: &RunConfig) -> (plan: Vec<Command>)
    requires
        cfg.valid(),
    ensures
        plan@ == plan_spec(*cfg),
{
    let size = cfg.data_size();
    let mut plan: Vec<Command> = Vec::new();
    plan.push(Command::SeedCopy { bytes: size });
    let mut round: usize = 0;
    while round < cfg.iterations
        invariant
            cfg.valid(),
            size == cfg.entries * 4,
            round <= cfg.iterations,
            plan@ == seq![seed_cmd(*cfg)] + rounds_spec(*cfg, round as int),
        decreases cfg.iterations - round,
    {
        plan.push(Command::Dispatch { groups: cfg.entries as u32 });
        round = round + 1;
        if cfg.sync_interval > 0 && round % cfg.sync_interval == 0 {
            plan.push(Command::SyncWait);
        }
        proof {
            assert(plan@ =~= seq![seed_cmd(*cfg)] + rounds_spec(*cfg, round as int));
        }
    }
    plan.push(Command::ReadbackCopy { bytes: size });
    proof {
        assert(plan@ =~= plan_spec(*cfg));
    }
    plan
}

/// `dispatch_count` distributes over concatenation.
pub proof fn lemma_dispatch_count_concat(a: Seq<Command>, b: Seq<Command>)
    ensures
        dispatch_count(a + b) == dispatch_count(a) + dispatch_count(b),
    decreases b.len(),
{
    if b.len() == 0 {
        assert(a + b =~= a);
    } else {
        assert((a + b).drop_last() =~= a + b.drop_last());
        lemma_dispatch_count_concat(a, b.drop_last());
    }
}

/// `dispatch_count` of a single command.
pub proof fn lemma_dispatch_count_singleton(c: Command)
    ensures
        dispatch_count(seq![c]) == if c is Dispatch {
            1int
        } else {
            0int
        },
{
    assert(seq![c].drop_last() =~= Seq::<Command>::empty());
    assert(dispatch_count(Seq::<Command>::empty()) == 0);
    assert(seq![c].last() == c);
}

/// The first `n` rounds hold exactly `n` dispatches, and every command in
/// them carries the sizes the configuration demands.
pub proof fn lemma_rounds_counted_and_sized(cfg: RunConfig, n: int)
    requires
        cfg.valid(),
        n >= 0,
    ensures
        dispatch_count(rounds_spec(cfg, n)) == n,
        forall|i: int|
            0 <= i < rounds_spec(cfg, n).len() ==> command_sized(cfg, #[trigger] rounds_spec(cfg, n)[i]),
        cfg.sync_interval == 0 ==> forall|i: int|
            0 <= i < rounds_spec(cfg, n).len() ==> !((#[trigger] rounds_spec(cfg, n)[i]) is SyncWait),
    decreases n,
{
    if n > 0 {
        lemma_rounds_counted_and_sized(cfg, n - 1);
        let d = seq![Command::Dispatch { groups: cfg.entries as u32 }];
        lemma_dispatch_count_concat(rounds_spec(cfg, n - 1), d);
        lemma_dispatch_count_singleton(Command::Dispatch { groups: cfg.entries as u32 });
        if cfg.sync_interval > 0 && n % (cfg.sync_interval as int) == 0 {
            lemma_dispatch_count_concat(rounds_spec(cfg, n - 1) + d, seq![Command::SyncWait]);
            lemma_dispatch_count_singleton(Command::SyncWait);
        } else {
            assert(rounds_spec(cfg, n) =~= rounds_spec(cfg, n - 1) + d);
        }
        if cfg.sync_interval == 0 {
            assert forall|i: int| 0 <= i < rounds_spec(cfg, n).len() implies !((#[trigger] rounds_spec(
                cfg,
                n,
            )[i]) is SyncWait) by {
                assert(rounds_spec(cfg, n) =~= rounds_spec(cfg, n - 1) + d);
                if i < rounds_spec(cfg, n - 1).len() {
                    assert(rounds_spec(cfg, n)[i] == rounds_spec(cfg, n - 1)[i]);
                } else {
                    assert(rounds_spec(cfg, n)[i] == d[0]);
                }
            }
        }
    }
}

/// Shape of every plan: it opens with the seed upload, closes with the final
/// readback, holds exactly `iterations` dispatches in between, and every
/// command in it carries the sizes the configuration demands. With
/// `sync_interval == 0` the plan holds no completion wait at all: between
/// dispatch rounds the runner relies on queue submission order alone.
pub proof fn lemma_plan_shape(cfg: RunConfig)
    requires
        cfg.valid(),
    ensures
        plan_spec(cfg).len() >= 2,
        plan_spec(cfg)[0] == seed_cmd(cfg),
        plan_spec(cfg).last() == readback_cmd(cfg),
        dispatch_count(plan_spec(cfg)) == cfg.iterations,
        forall|i: int|
            0 <= i < plan_spec(cfg).len() ==> command_sized(cfg, #[trigger] plan_spec(cfg)[i]),
        cfg.sync_interval == 0 ==> forall|i: int|
            0 <= i < plan_spec(cfg).len() ==> !((#[trigger] plan_spec(cfg)[i]) is SyncWait),
{
    let s = seq![seed_cmd(cfg)];
    let r = seq![readback_cmd(cfg)];
    let mid = rounds_spec(cfg, cfg.iterations as int);
    lemma_rounds_counted_and_sized(cfg, cfg.iterations as int);
    lemma_dispatch_count_concat(s, mid);
    lemma_dispatch_count_concat(s + mid, r);
    lemma_dispatch_count_singleton(seed_cmd(cfg));
    lemma_dispatch_count_singleton(readback_cmd(cfg));
    assert(plan_spec(cfg) =~= (s + mid) + r);
    assert forall|i: int| 0 <= i < plan_spec(cfg).len() implies command_sized(
        cfg,
        #[trigger] plan_spec(cfg)[i],
    ) by {
        if i == 0 {
            assert(plan_spec(cfg)[i] == seed_cmd(cfg));
        } else if i < 1 + mid.len() {
            assert(plan_spec(cfg)[i] == mid[i - 1]);
        } else {
            assert(plan_spec(cfg)[i] == readback_cmd(cfg));
        }
    }
    if cfg.sync_interval == 0 {
        assert forall|i: int| 0 <= i < plan_spec(cfg).len() implies !((#[trigger] plan_spec(cfg)[i]) is SyncWait) by {
            if i == 0 {
                assert(plan_spec(cfg)[i] == seed_cmd(cfg));
            } else if i < 1 + mid.len() {
                assert(plan_spec(cfg)[i] == mid[i - 1]);
            } else {
                assert(plan_spec(cfg)[i] == readback_cmd(cfg));
            }
        }
    }
}

} // verus!
